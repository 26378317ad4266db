//! The object locator: a pure map from a content hash to its sharded storage
//! path below the store root.
use vstd::prelude::*;
use crate::hash::ContentHash;
use crate::hex::hex_of;

verus! {

/// The bytes of `"objects/"`.
pub open spec fn objects_prefix() -> Seq<u8> {
    seq![111u8, 98u8, 106u8, 101u8, 99u8, 116u8, 115u8, 47u8]
}

/// The shard directory of a hash: `objects/` plus the first two hex
/// characters of its rendering.
pub open spec fn shard_dir_of(hash: Seq<u8>) -> Seq<u8> {
    objects_prefix() + hex_of(hash).take(2)
}

/// The storage path of a hash relative to the store root:
/// `objects/<2 hex chars>/<38 hex chars>`.
pub open spec fn object_rel_path(hash: Seq<u8>) -> Seq<u8> {
    shard_dir_of(hash) + seq![47u8] + hex_of(hash).skip(2)
}

/// The shard directory for a hash, as path bytes.
pub fn shard_dir_for(h: &ContentHash) -> (r: Vec<u8>)
    requires
        h.wf(),
    ensures
        r@ == shard_dir_of(h@),
{
    let hex = h.to_hex();
    let mut r: Vec<u8> = Vec::new();
    r.push(111);
    r.push(98);
    r.push(106);
    r.push(101);
    r.push(99);
    r.push(116);
    r.push(115);
    r.push(47);
    r.push(hex[0]);
    r.push(hex[1]);
    proof {
        assert(r@ =~= shard_dir_of(h@));
    }
    r
}

/// The storage path for a hash, as path bytes relative to the store root.
/// Pure and total: every 20-byte hash maps to a path; nothing checks that the
/// path exists.
pub fn path_for(h: &ContentHash) -> (r: Vec<u8>)
    requires
        h.wf(),
    ensures
        r@ == object_rel_path(h@),
{
    let hex = h.to_hex();
    let mut r = shard_dir_for(h);
    r.push(47);
    let mut i: usize = 2;
    while i < hex.len()
        invariant
            2 <= i <= hex@.len(),
            hex@ == hex_of(h@),
            h@.len() == 20,
            r@ == shard_dir_of(h@) + seq![47u8] + hex@.subrange(2, i as int),
        decreases hex@.len() - i,
    {
        r.push(hex[i]);
        proof {
            assert(r@ =~= shard_dir_of(h@) + seq![47u8] + hex@.subrange(2, i + 1));
        }
        i += 1;
    }
    proof {
        assert(r@ =~= object_rel_path(h@));
    }
    r
}

} // verus!
