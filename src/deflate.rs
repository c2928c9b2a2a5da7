use vstd::prelude::*;

verus! {

/// The zlib stream that flate2 produces for `data` at its strongest level.
pub uninterp spec fn zlib_best(data: Seq<u8>) -> Seq<u8>;

/// What inflating the zlib stream `stream` yields, or `None` for a stream
/// that is not valid zlib.
pub uninterp spec fn zlib_inflate(stream: Seq<u8>) -> Option<Seq<u8>>;

/// Relies on flate2::write::ZlibEncoder with Compression::best() (new,
/// write_all, finish): the result is the zlib stream for `data`, a function
/// of the bytes alone, and inflating it gives `data` back, since zlib
/// compression is lossless. Writing into a `Vec` with a fixed level never
/// fails, so the call always succeeds.
#[verifier::external_body]
pub(crate) fn compress_best(data: &Vec<u8>) -> (r: Option<Vec<u8>>)
    ensures
        r is Some,
        match r {
            Some(c) => c@ == zlib_best(data@) && zlib_inflate(c@) == Some(data@),
            None => true,
        },
{
    let mut encoder = flate2::write::ZlibEncoder::new(Vec::new(), flate2::Compression::best());
    match std::io::Write::write_all(&mut encoder, data) {
        Ok(()) => encoder.finish().ok(),
        Err(_) => None,
    }
}

/// Relies on flate2::read::ZlibDecoder (new, then read_to_end): the bytes
/// that the zlib stream decompresses to, or an error for a corrupt or
/// truncated stream; which of the two depends on the bytes alone.
#[verifier::external_body]
pub(crate) fn inflate(stream: &Vec<u8>) -> (r: Option<Vec<u8>>)
    ensures
        match r {
            Some(d) => zlib_inflate(stream@) == Some(d@),
            None => zlib_inflate(stream@) is None,
        },
{
    let mut decoder = flate2::read::ZlibDecoder::new(stream.as_slice());
    let mut out: Vec<u8> = Vec::new();
    match std::io::Read::read_to_end(&mut decoder, &mut out) {
        Ok(_) => Some(out),
        Err(_) => None,
    }
}

} // verus!
