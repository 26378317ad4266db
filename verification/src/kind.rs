//! The closed set of object kinds and their on-the-wire names.
use vstd::prelude::*;

verus! {

/// The kind of a stored object. The textual form used on the wire is the
/// lowercase name; any other name is a decode error.
#[derive(Clone, Copy, Debug, PartialEq, Eq, Structural)]
pub enum ObjectKind {
    Blob,
    Tree,
    Commit,
}

/// The wire name of a kind, as bytes.
pub open spec fn kind_name(k: ObjectKind) -> Seq<u8> {
    match k {
        ObjectKind::Blob => seq![98u8, 108u8, 111u8, 98u8],
        ObjectKind::Tree => seq![116u8, 114u8, 101u8, 101u8],
        ObjectKind::Commit => seq![99u8, 111u8, 109u8, 109u8, 105u8, 116u8],
    }
}

/// The kind a wire name denotes, if any.
pub open spec fn kind_of_name(name: Seq<u8>) -> Option<ObjectKind> {
    if name == kind_name(ObjectKind::Blob) {
        Some(ObjectKind::Blob)
    } else if name == kind_name(ObjectKind::Tree) {
        Some(ObjectKind::Tree)
    } else if name == kind_name(ObjectKind::Commit) {
        Some(ObjectKind::Commit)
    } else {
        None
    }
}

/// Wire names are never empty, hold no NUL and no space, and are ASCII.
pub proof fn lemma_kind_name_bytes(k: ObjectKind)
    ensures
        0 < kind_name(k).len() <= 6,
        forall|i: int|
            0 <= i < kind_name(k).len() ==> #[trigger] kind_name(k)[i] != 0
                && kind_name(k)[i] != 32 && kind_name(k)[i] < 0x80,
{
}

/// The two decode directions agree: a kind's name decodes back to it.
pub proof fn lemma_kind_name_round_trip(k: ObjectKind)
    ensures
        kind_of_name(kind_name(k)) == Some(k),
{
    match k {
        ObjectKind::Blob => {},
        ObjectKind::Tree => {
            assert(kind_name(ObjectKind::Tree) != kind_name(ObjectKind::Blob)) by {
                assert(kind_name(ObjectKind::Tree)[0] != kind_name(ObjectKind::Blob)[0]);
            }
        },
        ObjectKind::Commit => {
            assert(kind_name(ObjectKind::Commit) != kind_name(ObjectKind::Blob)) by {
                assert(kind_name(ObjectKind::Commit).len() != kind_name(ObjectKind::Blob).len());
            }
            assert(kind_name(ObjectKind::Commit) != kind_name(ObjectKind::Tree)) by {
                assert(kind_name(ObjectKind::Commit).len() != kind_name(ObjectKind::Tree).len());
            }
        },
    }
}

impl ObjectKind {
    /// The wire name of this kind, as bytes.
    pub fn name_bytes(&self) -> (r: Vec<u8>)
        ensures
            r@ == kind_name(*self),
    {
        let mut v: Vec<u8> = Vec::new();
        match self {
            ObjectKind::Blob => {
                v.push(98);
                v.push(108);
                v.push(111);
                v.push(98);
            },
            ObjectKind::Tree => {
                v.push(116);
                v.push(114);
                v.push(101);
                v.push(101);
            },
            ObjectKind::Commit => {
                v.push(99);
                v.push(111);
                v.push(109);
                v.push(109);
                v.push(105);
                v.push(116);
            },
        }
        proof {
            assert(v@ =~= kind_name(*self));
        }
        v
    }
}

} // verus!
