//! The tree decoder: a tree payload is a run of entries
//! `"<mode> <name>\0" + 20 hash bytes` with no separators, decoded lazily and
//! exactly to the declared size.
use vstd::prelude::*;
use vstd::utf8::valid_utf8;
use crate::bytes::{find_byte, find_byte_from, copy_range, bytes_eq, lemma_find_byte};
use crate::error::ObjectError;
use crate::hash::ContentHash;
use crate::utf8check::utf8_check;
use crate::hex::hex_of;
use crate::kind::{ObjectKind, kind_name};
use crate::reader::StoredObject;

verus! {

/// A decoded directory entry: its mode text, the kind its mode denotes, the
/// hash of the object it names, and its name.
#[derive(Debug)]
pub struct TreeEntry {
    pub mode: Vec<u8>,
    pub entry_kind: ObjectKind,
    pub hash: ContentHash,
    pub name: Vec<u8>,
}

/// The value of one entry, at the specification level.
pub struct TreeEntryModel {
    pub mode: Seq<u8>,
    pub name: Seq<u8>,
    pub hash: Seq<u8>,
}

/// The one mode string that denotes a sub-tree: `"40000"`.
pub open spec fn tree_mode() -> Seq<u8> {
    seq![52u8, 48u8, 48u8, 48u8, 48u8]
}

/// The kind a mode denotes: `"40000"` is a tree, every other mode a blob.
/// This deliberately conflates blobs, executables and symlinks.
pub open spec fn mode_kind(mode: Seq<u8>) -> ObjectKind {
    if mode == tree_mode() {
        ObjectKind::Tree
    } else {
        ObjectKind::Blob
    }
}

/// Whether an exec entry carries exactly a model's values.
pub open spec fn entry_matches(e: TreeEntry, m: TreeEntryModel) -> bool {
    &&& e.mode@ == m.mode
    &&& e.name@ == m.name
    &&& e.hash@ == m.hash
    &&& e.entry_kind == mode_kind(m.mode)
}

/// Parses one entry from the front of a payload: mode up to a space, name up
/// to a NUL, then exactly 20 hash bytes; mode and name must be UTF-8 text.
/// Yields the entry and the number of bytes consumed, or `None` when the
/// bytes do not hold a complete entry.
pub open spec fn parse_entry(s: Seq<u8>) -> Option<(TreeEntryModel, int)> {
    match find_byte(s, 32) {
        None => None,
        Some(sp) => {
            let rest = s.skip(sp + 1);
            match find_byte(rest, 0) {
                None => None,
                Some(nlp) => if rest.len() < nlp + 21 {
                    None
                } else {
                    let mode = s.take(sp);
                    let name = rest.take(nlp);
                    if !valid_utf8(mode) || !valid_utf8(name) {
                        None
                    } else {
                        Some(
                            (
                                TreeEntryModel { mode, name, hash: rest.subrange(nlp + 1, nlp + 21) },
                                sp + 1 + nlp + 1 + 20,
                            ),
                        )
                    }
                },
            }
        },
    }
}

/// A parsed entry consumes between 22 bytes and the whole payload.
pub proof fn lemma_parse_entry_used(s: Seq<u8>)
    ensures
        parse_entry(s) matches Some(t) ==> 22 <= t.1 <= s.len(),
{
    if parse_entry(s) is Some {
        lemma_find_byte(s, 32);
        let sp = find_byte(s, 32)->Some_0;
        lemma_find_byte(s.skip(sp + 1), 0);
    }
}

/// The entries of a whole tree payload, or `None` when it is truncated or
/// internally inconsistent. The payload must be consumed exactly.
pub open spec fn tree_entries(s: Seq<u8>) -> Option<Seq<TreeEntryModel>>
    decreases s.len(),
    via tree_entries_decreases
{
    if s.len() == 0 {
        Some(Seq::empty())
    } else {
        match parse_entry(s) {
            None => None,
            Some(t) => match tree_entries(s.skip(t.1)) {
                None => None,
                Some(rest) => Some(seq![t.0] + rest),
            },
        }
    }
}

#[via_fn]
proof fn tree_entries_decreases(s: Seq<u8>) {
    lemma_parse_entry_used(s);
}

/// A lazy, forward-only reader of tree entries. Restarting means re-reading
/// the object: the underlying payload is single-pass.
pub struct TreeReader {
    pub payload: Vec<u8>,
    pub pos: usize,
}

impl TreeReader {
    /// The cursor stays within the payload.
    pub open spec fn wf(&self) -> bool {
        self.pos <= self.payload@.len()
    }

    /// The bytes not yet consumed.
    pub open spec fn remaining(&self) -> Seq<u8> {
        self.payload@.skip(self.pos as int)
    }

    /// Starts decoding a stored object as a tree. Any other kind is caller
    /// misuse (`InvalidOperation`); a payload shorter than declared is a
    /// truncated tree (`MalformedTree`).
    pub fn new(obj: StoredObject) -> (r: Result<TreeReader, ObjectError>)
        ensures
            obj.header.kind != ObjectKind::Tree ==> (r matches Err(
                ObjectError::InvalidOperation { kind },
            ) && kind == obj.header.kind),
            obj.header.kind == ObjectKind::Tree && obj.payload@.len() != obj.header.payload_size
                ==> (r matches Err(e) && e is MalformedTree),
            obj.header.kind == ObjectKind::Tree && obj.payload@.len() == obj.header.payload_size
                ==> (r matches Ok(t) && t.wf() && t.payload@ == obj.payload@ && t.pos == 0),
    {
        match obj.header.kind {
            ObjectKind::Tree => {},
            _ => {
                return Err(ObjectError::InvalidOperation { kind: obj.header.kind });
            },
        }
        if obj.payload.len() as u64 != obj.header.payload_size {
            return Err(ObjectError::MalformedTree);
        }
        Ok(TreeReader { payload: obj.payload, pos: 0 })
    }

    /// Decodes the next entry: `Ok(None)` exactly at the end of the payload,
    /// `MalformedTree` when the remaining bytes do not hold a complete entry.
    pub fn next_entry(&mut self) -> (r: Result<Option<TreeEntry>, ObjectError>)
        requires
            old(self).wf(),
        ensures
            final(self).wf(),
            final(self).payload@ == old(self).payload@,
            old(self).remaining().len() == 0 ==> (r matches Ok(x) && x is None && final(self).pos
                == old(self).pos),
            old(self).remaining().len() > 0 ==> match parse_entry(old(self).remaining()) {
                Some(t) => (r matches Ok(x) && x matches Some(e) && entry_matches(e, t.0)
                    && final(self).pos == old(self).pos + t.1),
                None => (r matches Err(e) && e is MalformedTree),
            },
    {
        let ghost rem = self.remaining();
        if self.pos == self.payload.len() {
            return Ok(None);
        }
        let sp_abs = match find_byte_from(&self.payload, self.pos, 32) {
            Some(i) => i,
            None => {
                return Err(ObjectError::MalformedTree);
            },
        };
        let ghost sp = sp_abs - self.pos;
        let mode = copy_range(&self.payload, self.pos, sp_abs);
        proof {
            assert(mode@ =~= rem.take(sp));
        }
        let nl_abs = match find_byte_from(&self.payload, sp_abs + 1, 0) {
            Some(i) => i,
            None => {
                proof {
                    assert(self.payload@.skip(sp_abs + 1) =~= rem.skip(sp + 1));
                }
                return Err(ObjectError::MalformedTree);
            },
        };
        proof {
            assert(self.payload@.skip(sp_abs + 1) =~= rem.skip(sp + 1));
        }
        let ghost nlp = nl_abs - sp_abs - 1;
        if self.payload.len() - (nl_abs + 1) < 20 {
            return Err(ObjectError::MalformedTree);
        }
        let name = copy_range(&self.payload, sp_abs + 1, nl_abs);
        proof {
            assert(name@ =~= rem.skip(sp + 1).take(nlp));
        }
        let hash_bytes = copy_range(&self.payload, nl_abs + 1, nl_abs + 21);
        proof {
            assert(hash_bytes@ =~= rem.skip(sp + 1).subrange(nlp + 1, nlp + 21));
        }
        if !utf8_check(&mode) {
            return Err(ObjectError::MalformedTree);
        }
        if !utf8_check(&name) {
            return Err(ObjectError::MalformedTree);
        }
        let mut tm: Vec<u8> = Vec::new();
        tm.push(52);
        tm.push(48);
        tm.push(48);
        tm.push(48);
        tm.push(48);
        proof {
            assert(tm@ =~= tree_mode());
        }
        let entry_kind = if bytes_eq(&mode, &tm) {
            ObjectKind::Tree
        } else {
            ObjectKind::Blob
        };
        let hash = ContentHash { bytes: hash_bytes };
        self.pos = nl_abs + 21;
        Ok(Some(TreeEntry { mode, entry_kind, hash, name }))
    }
}

/// Decodes a whole tree object into its entries, in on-disk order.
pub fn decode_tree(obj: StoredObject) -> (r: Result<Vec<TreeEntry>, ObjectError>)
    ensures
        obj.header.kind != ObjectKind::Tree ==> (r matches Err(
            ObjectError::InvalidOperation { kind },
        ) && kind == obj.header.kind),
        obj.header.kind == ObjectKind::Tree && obj.payload@.len() != obj.header.payload_size ==> (
        r matches Err(e) && e is MalformedTree),
        obj.header.kind == ObjectKind::Tree && obj.payload@.len() == obj.header.payload_size
            ==> match tree_entries(obj.payload@) {
            Some(ms) => (r matches Ok(es) && es@.len() == ms.len() && forall|i: int|
                0 <= i < ms.len() ==> entry_matches(#[trigger] es@[i], ms[i])),
            None => (r matches Err(e) && e is MalformedTree),
        },
{
    let ghost payload0 = obj.payload@;
    let mut tr = match TreeReader::new(obj) {
        Ok(t) => t,
        Err(e) => {
            return Err(e);
        },
    };
    let mut entries: Vec<TreeEntry> = Vec::new();
    let ghost mut ms: Seq<TreeEntryModel> = Seq::empty();
    proof {
        assert(tr.remaining() =~= payload0);
        if tree_entries(payload0) is Some {
            assert(Seq::<TreeEntryModel>::empty() + tree_entries(payload0)->Some_0 =~= tree_entries(
                payload0,
            )->Some_0);
        }
    }
    loop
        invariant
            obj.header.kind == ObjectKind::Tree,
            obj.payload@.len() == obj.header.payload_size,
            payload0 == obj.payload@,
            tr.wf(),
            tr.payload@ == payload0,
            entries@.len() == ms.len(),
            forall|i: int| 0 <= i < ms.len() ==> entry_matches(#[trigger] entries@[i], ms[i]),
            match tree_entries(tr.remaining()) {
                Some(rest) => tree_entries(payload0) == Some(ms + rest),
                None => tree_entries(payload0) is None,
            },
        decreases tr.remaining().len(),
    {
        let ghost rem_old = tr.remaining();
        match tr.next_entry() {
            Ok(None) => {
                proof {
                    assert(ms + Seq::<TreeEntryModel>::empty() =~= ms);
                }
                return Ok(entries);
            },
            Ok(Some(e)) => {
                proof {
                    lemma_parse_entry_used(rem_old);
                    let t = parse_entry(rem_old)->Some_0;
                    assert(tr.remaining() =~= rem_old.skip(t.1));
                    if tree_entries(tr.remaining()) is Some {
                        let rest = tree_entries(tr.remaining())->Some_0;
                        assert(ms + (seq![t.0] + rest) =~= ms.push(t.0) + rest);
                    }
                    ms = ms.push(t.0);
                }
                entries.push(e);
            },
            Err(e) => {
                return Err(e);
            },
        }
    }
}

/// The output line for one entry: the name alone, or mode, kind, hex hash and
/// name separated by tabs; each line NL-terminated.
pub open spec fn entry_line(e: TreeEntry, name_only: bool) -> Seq<u8> {
    if name_only {
        e.name@ + seq![10u8]
    } else {
        e.mode@ + seq![9u8] + kind_name(e.entry_kind) + seq![9u8] + hex_of(e.hash@) + seq![9u8]
            + e.name@ + seq![10u8]
    }
}

/// The listing of a run of entries: their lines in order.
pub open spec fn listing(entries: Seq<TreeEntry>, name_only: bool) -> Seq<u8>
    decreases entries.len(),
{
    if entries.len() == 0 {
        Seq::empty()
    } else {
        listing(entries.drop_last(), name_only) + entry_line(entries.last(), name_only)
    }
}

/// Renders one entry's output line.
pub fn format_entry(e: &TreeEntry, name_only: bool) -> (r: Vec<u8>)
    ensures
        r@ == entry_line(*e, name_only),
{
    let mut r: Vec<u8> = Vec::new();
    if name_only {
        let mut name = copy_range(&e.name, 0, e.name.len());
        r.append(&mut name);
        r.push(10);
        proof {
            assert(r@ =~= entry_line(*e, name_only));
        }
        return r;
    }
    let mut mode = copy_range(&e.mode, 0, e.mode.len());
    r.append(&mut mode);
    r.push(9);
    let mut kname = e.entry_kind.name_bytes();
    r.append(&mut kname);
    r.push(9);
    let mut hx = e.hash.to_hex();
    r.append(&mut hx);
    r.push(9);
    let mut name = copy_range(&e.name, 0, e.name.len());
    r.append(&mut name);
    r.push(10);
    proof {
        assert(r@ =~= entry_line(*e, name_only));
    }
    r
}

/// Renders a whole listing, one line per entry in order.
pub fn format_listing(entries: &Vec<TreeEntry>, name_only: bool) -> (r: Vec<u8>)
    ensures
        r@ == listing(entries@, name_only),
{
    let mut r: Vec<u8> = Vec::new();
    let mut i: usize = 0;
    while i < entries.len()
        invariant
            0 <= i <= entries@.len(),
            r@ == listing(entries@.take(i as int), name_only),
        decreases entries@.len() - i,
    {
        let mut line = format_entry(&entries[i], name_only);
        r.append(&mut line);
        proof {
            assert(entries@.take(i + 1).drop_last() =~= entries@.take(i as int));
            assert(entries@.take(i + 1).last() == entries@[i as int]);
        }
        i += 1;
    }
    proof {
        assert(entries@.take(entries@.len() as int) =~= entries@);
    }
    r
}

} // verus!
