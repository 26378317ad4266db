//! The zlib compression framing, named abstractly and computed by an outside
//! crate. Reads are capped so that a stream longer than declared cannot blow
//! up memory.
use vstd::prelude::*;

verus! {

/// The zlib compression of a byte sequence at the default level. Its value is
/// fixed by the codec alone; this crate only names it.
pub uninterp spec fn deflation(data: Seq<u8>) -> Seq<u8>;

/// The decompression of a zlib stream: the full decompressed bytes when the
/// stream is well formed, `None` otherwise. Fixed by the codec alone.
pub uninterp spec fn inflation(data: Seq<u8>) -> Option<Seq<u8>>;

/// Relies on flate2's `write::ZlibEncoder` at the default level: the output
/// is a function of the input bytes alone, and decompressing it yields the
/// input again. Writing into an in-memory buffer cannot fail.
#[verifier::external_body]
pub(crate) fn zlib_compress(data: &Vec<u8>) -> (r: Vec<u8>)
    ensures
        r@ == deflation(data@),
        inflation(r@) == Some(data@),
{
    let mut enc = flate2::write::ZlibEncoder::new(Vec::new(), flate2::Compression::default());
    std::io::Write::write_all(&mut enc, data.as_slice())
        .expect("writing to an in-memory buffer cannot fail");
    enc.finish().expect("finishing an in-memory buffer cannot fail")
}

/// Relies on flate2's `read::ZlibDecoder`: on a well-formed stream it yields
/// the decompressed bytes, here read through `Read::take` so that at most
/// `cap` bytes are ever produced. On a corrupt stream whatever was
/// decompressed before the error is returned, still capped.
#[verifier::external_body]
pub(crate) fn zlib_inflate_capped(data: &Vec<u8>, cap: u64) -> (r: Vec<u8>)
    requires
        cap <= usize::MAX as u64,
    ensures
        r@.len() <= cap,
        inflation(data@) matches Some(full) ==> r@ == full.take(
            vstd::math::min(cap as int, full.len() as int),
        ),
{
    let mut out = Vec::new();
    let dec = flate2::read::ZlibDecoder::new(data.as_slice());
    let mut capped = std::io::Read::take(dec, cap);
    let _ = std::io::Read::read_to_end(&mut capped, &mut out);
    out
}

} // verus!
