//! The object reader: decompresses a stored stream under a cap, parses the
//! header, and yields the payload bounded to the declared size so that an
//! over-long decompressed stream cannot blow up memory.
use vstd::prelude::*;
use vstd::math::min;
use vstd::utf8::valid_utf8;
use crate::bytes::{find_byte, find_byte_from, copy_range};
use crate::compress::{inflation, zlib_inflate_capped};
use crate::error::ObjectError;
use crate::header::{
    ObjectHeader, region_ok, region_header, kind_token, size_token_ok, parse_header,
};
use crate::kind::{ObjectKind, kind_of_name};

verus! {

/// How many decompressed bytes the reader scans for the header's NUL
/// terminator. The longest well-formed header is 28 bytes
/// (`"commit "`, twenty digits, NUL).
pub const HEADER_SCAN_BOUND: u64 = 32;

/// A decoded object: its header and its payload bytes, already bounded to the
/// declared size. The payload may be shorter than declared when the stored
/// stream was truncated; `check_size` detects that.
#[derive(Debug)]
pub struct StoredObject {
    pub header: ObjectHeader,
    pub payload: Vec<u8>,
}

impl StoredObject {
    /// The payload never exceeds the declared size.
    pub open spec fn wf(&self) -> bool {
        self.payload@.len() <= self.header.payload_size
    }

    /// The caller-side integrity check: the bytes actually present must match
    /// the declared size exactly.
    pub fn check_size(&self) -> (r: Result<(), ObjectError>)
        ensures
            r is Ok <==> self.payload@.len() == self.header.payload_size,
            r matches Err(e) ==> (e matches ObjectError::SizeMismatch { declared, actual }
                && declared == self.header.payload_size && actual as nat == self.payload@.len()),
    {
        let actual = self.payload.len() as u64;
        if actual == self.header.payload_size {
            Ok(())
        } else {
            Err(
                ObjectError::SizeMismatch {
                    declared: self.header.payload_size,
                    actual,
                },
            )
        }
    }

    /// The payload of a blob object, after the integrity check. Fails with
    /// `InvalidOperation` on any other kind and with `SizeMismatch` when the
    /// payload is shorter than declared.
    pub fn blob_payload(self) -> (r: Result<Vec<u8>, ObjectError>)
        ensures
            self.header.kind != ObjectKind::Blob ==> (r matches Err(
                ObjectError::InvalidOperation { kind },
            ) && kind == self.header.kind),
            self.header.kind == ObjectKind::Blob && self.payload@.len()
                != self.header.payload_size ==> (r matches Err(
                ObjectError::SizeMismatch { declared, actual },
            ) && declared == self.header.payload_size && actual as nat == self.payload@.len()),
            self.header.kind == ObjectKind::Blob && self.payload@.len()
                == self.header.payload_size ==> (r matches Ok(v) && v@ == self.payload@),
    {
        match self.header.kind {
            ObjectKind::Blob => {},
            _ => {
                return Err(ObjectError::InvalidOperation { kind: self.header.kind });
            },
        }
        match self.check_size() {
            Ok(_) => {},
            Err(e) => {
                return Err(e);
            },
        }
        Ok(self.payload)
    }
}

/// The decompressed prefix in which the header's NUL must appear.
pub open spec fn header_prefix(full: Seq<u8>) -> Seq<u8> {
    full.take(min(HEADER_SCAN_BOUND as int, full.len() as int))
}

/// The index of the header's NUL terminator, when one appears within the scan
/// bound.
pub open spec fn header_nul_idx(full: Seq<u8>) -> Option<int> {
    find_byte(header_prefix(full), 0)
}

/// The header region: the decompressed bytes before the NUL.
pub open spec fn stream_region(full: Seq<u8>) -> Seq<u8>
    recommends
        header_nul_idx(full) is Some,
{
    full.take(header_nul_idx(full)->Some_0)
}

/// Whether the decompressed stream opens with a fully well-formed header.
pub open spec fn stream_header_ok(full: Seq<u8>) -> bool {
    &&& header_nul_idx(full) is Some
    &&& region_ok(stream_region(full))
}

/// The header the stream declares.
pub open spec fn stream_header(full: Seq<u8>) -> ObjectHeader
    recommends
        stream_header_ok(full),
{
    region_header(stream_region(full))
}

/// How many decompressed bytes the reader fetches: header plus declared size,
/// saturated at the machine's limits. It never reads further, which is the
/// decompression-bomb bound.
pub open spec fn fetch_cap(hl: int, size: int) -> int {
    let a = if hl + size > u64::MAX {
        u64::MAX as int
    } else {
        hl + size
    };
    if a > usize::MAX as int {
        usize::MAX as int
    } else {
        a
    }
}

/// The payload the reader yields: the bytes after the NUL, capped at the
/// declared size (and at what the fetch bound made available).
pub open spec fn stream_payload(full: Seq<u8>) -> Seq<u8>
    recommends
        stream_header_ok(full),
{
    let hl = header_nul_idx(full)->Some_0 + 1;
    let size = stream_header(full).payload_size as int;
    let fetched = min(full.len() as int, fetch_cap(hl, size));
    full.subrange(hl, hl + min(size, fetched - hl))
}

/// Which error a stream with a bad header produces.
pub open spec fn stream_err(full: Seq<u8>, e: ObjectError) -> bool {
    if header_nul_idx(full) is None {
        (e matches ObjectError::MalformedHeader { bytes } && bytes@ == header_prefix(full))
    } else {
        let region = stream_region(full);
        if !valid_utf8(region) {
            (e matches ObjectError::MalformedHeader { bytes } && bytes@ == region)
        } else if find_byte(region, 32) is None {
            (e matches ObjectError::MalformedHeader { bytes } && bytes@ == region)
        } else if kind_of_name(kind_token(region)) is None {
            (e matches ObjectError::UnknownKind { name } && name@ == kind_token(region))
        } else if !size_token_ok(region) {
            (e matches ObjectError::MalformedHeader { bytes } && bytes@ == region)
        } else {
            false
        }
    }
}

/// Everything `decode_object` promises. When the stored bytes are a
/// well-formed zlib stream the outcome is pinned exactly; when they are not,
/// whatever comes back is still a well-formed object or an error.
pub open spec fn decode_post(data: Seq<u8>, r: Result<StoredObject, ObjectError>) -> bool {
    &&& (r matches Ok(o) ==> o.wf())
    &&& (inflation(data) matches Some(full) ==> {
        &&& (r is Ok <==> stream_header_ok(full))
        &&& (r matches Ok(o) ==> o.header == stream_header(full) && o.payload@ == stream_payload(
            full,
        ))
        &&& (r matches Err(e) ==> stream_err(full, e))
    })
}

/// Decodes one stored object from its compressed bytes: decompresses just
/// enough for the header, parses it, then fetches at most the declared
/// payload size.
pub fn decode_object(data: &Vec<u8>) -> (r: Result<StoredObject, ObjectError>)
    ensures
        decode_post(data@, r),
{
    let head = zlib_inflate_capped(data, HEADER_SCAN_BOUND);
    proof {
        if inflation(data@) is Some {
            let full = inflation(data@)->Some_0;
            assert(head@ == header_prefix(full));
        }
    }
    let p = match find_byte_from(&head, 0, 0u8) {
        Some(p) => p,
        None => {
            proof {
                assert(head@.skip(0) =~= head@);
            }
            return Err(ObjectError::MalformedHeader { bytes: head });
        },
    };
    proof {
        assert(head@.skip(0) =~= head@);
    }
    let region = copy_range(&head, 0, p);
    proof {
        if inflation(data@) is Some {
            let full = inflation(data@)->Some_0;
            assert(region@ =~= stream_region(full));
        }
    }
    let h = match parse_header(&region) {
        Ok(h) => h,
        Err(e) => {
            return Err(e);
        },
    };
    let hl: usize = p + 1;
    let hl64 = hl as u64;
    let size = h.payload_size;
    let cap64 = if size > u64::MAX - hl64 {
        u64::MAX
    } else {
        size + hl64
    };
    let cap = if cap64 > (usize::MAX as u64) {
        usize::MAX as u64
    } else {
        cap64
    };
    proof {
        assert(cap as int == fetch_cap(hl as int, size as int));
    }
    let all = zlib_inflate_capped(data, cap);
    let start = if all.len() < hl {
        all.len()
    } else {
        hl
    };
    let mut payload: Vec<u8> = Vec::new();
    let mut i: usize = start;
    while i < all.len() && ((i - start) as u64) < size
        invariant
            start <= i <= all@.len(),
            payload@ == all@.subrange(start as int, i as int),
            i - start <= size,
        decreases all@.len() - i,
    {
        payload.push(all[i]);
        proof {
            assert(payload@ =~= all@.subrange(start as int, i + 1));
        }
        i += 1;
    }
    let obj = StoredObject { header: h, payload };
    proof {
        if inflation(data@) is Some {
            let full = inflation(data@)->Some_0;
            let fetched = min(full.len() as int, fetch_cap(hl as int, size as int));
            assert(all@ == full.take(fetched));
            assert(full.len() >= hl);
            assert(fetched >= hl);
            assert(start == hl);
            assert(i - start == min(size as int, fetched - hl));
            assert(obj.payload@ =~= stream_payload(full));
        }
    }
    Ok(obj)
}

/// Reads an object from what the filesystem offered: `None` (no file at the
/// hash-derived path) fails with `NotFound`, distinguishable from every
/// decode failure; otherwise the bytes are decoded as `decode_object` states.
pub fn read_object(found: Option<Vec<u8>>) -> (r: Result<StoredObject, ObjectError>)
    ensures
        found is None ==> (r matches Err(e) && e is NotFound),
        found matches Some(data) ==> decode_post(data@, r),
{
    match found {
        None => Err(ObjectError::NotFound),
        Some(data) => decode_object(&data),
    }
}

} // verus!
