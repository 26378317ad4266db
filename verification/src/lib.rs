//! A verified content-addressable object store codec.
//!
//! Objects are stored as zlib-compressed streams of the form
//! `"<kind> <size>\0" + payload`, identified by the 20-byte digest of that
//! encoded form and laid out under hash-sharded paths. This crate verifies
//! the codec itself: the header grammar (`header`), the size-integrity rules
//! and bounded decompression of the read path (`reader`), the hashing and
//! compression framing of the write path (`writer`), the hash-derived paths
//! (`locator`), and the structured decoding of tree payloads (`tree`).
//! The digest and the zlib framing themselves come from outside crates and
//! are named, not restated, in `digest` and `compress`; `laws` proves the
//! round trip through them.
use vstd::prelude::*;

pub mod bytes;
pub mod compress;
pub mod digest;
pub mod digits;
pub mod error;
pub mod hash;
pub mod header;
pub mod hex;
pub mod kind;
pub mod laws;
pub mod locator;
pub mod reader;
pub mod tree;
pub mod utf8check;
pub mod writer;

verus! {

} // verus!
