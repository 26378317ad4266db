//! The failure taxonomy of the object store.
use vstd::prelude::*;
use crate::kind::ObjectKind;

verus! {

/// Everything that can go wrong reading, writing or decoding an object.
///
/// Each variant carries the offending value where one exists; the caller
/// knows which hash or path it was operating on.
#[derive(Debug)]
pub enum ObjectError {
    /// No object file exists at the hash-derived path.
    NotFound,
    /// The decompressed stream does not start with `"<kind> <size>\0"`;
    /// carries the offending header bytes.
    MalformedHeader { bytes: Vec<u8> },
    /// The header names a kind this store does not know; carries the name.
    UnknownKind { name: Vec<u8> },
    /// The declared payload size and the bytes actually present disagree.
    SizeMismatch { declared: u64, actual: u64 },
    /// A tree payload is truncated or internally inconsistent.
    MalformedTree,
    /// The filesystem failed while persisting an object; carries a
    /// description of the failing step.
    StorageError { detail: Vec<u8> },
    /// Caller misuse, such as decoding a non-tree object as a tree; carries
    /// the kind actually found.
    InvalidOperation { kind: ObjectKind },
}

} // verus!
