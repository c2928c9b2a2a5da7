use vstd::prelude::*;
use crate::container::{container, frame_container, header_of, parse_header, lemma_header_of_container, magic, HEADER_LEN};
use crate::deflate::{compress_best, inflate, zlib_best, zlib_inflate};
use crate::error::{DecodeError, EncodeError};
use crate::raster::{byte_len, Raster, RasterView};

verus! {

/// The container that encoding `r` produces.
pub open spec fn encoded(r: RasterView) -> Seq<u8> {
    container(r.width, r.height, zlib_best(r.pixels))
}

/// The raster that an inflated payload gives for the declared dimensions:
/// its first `4 * width * height` bytes, any excess ignored, or
/// `SizeMismatch` when it is too short.
pub open spec fn raster_of(width: u32, height: u32, payload: Seq<u8>) -> Result<RasterView, DecodeError> {
    if payload.len() < byte_len(width, height) {
        Err(DecodeError::SizeMismatch)
    } else {
        Ok(RasterView { width, height, pixels: payload.subrange(0, byte_len(width, height)) })
    }
}

/// What decoding the container bytes `b` yields.
pub open spec fn decoded(b: Seq<u8>) -> Result<RasterView, DecodeError> {
    match header_of(b) {
        Err(e) => Err(e),
        Ok((width, height)) => match zlib_inflate(b.subrange(12, b.len() as int)) {
            None => Err(DecodeError::CorruptPayload),
            Some(payload) => raster_of(width, height, payload),
        },
    }
}

/// Decoding a framed zlib stream gives the raster that its inflated bytes
/// make for the framed dimensions.
pub proof fn lemma_decoded_container(width: u32, height: u32, stream: Seq<u8>, payload: Seq<u8>)
    requires
        zlib_inflate(stream) == Some(payload),
    ensures
        decoded(container(width, height, stream)) == raster_of(width, height, payload),
{
    lemma_header_of_container(width, height, stream);
}

/// A decoded raster takes pixel `i` from the `i`-th four-byte group of the
/// payload and places it at column `i % width`, row `i / width`, channels in
/// order.
pub proof fn lemma_pixel_placement(width: u32, height: u32, payload: Seq<u8>, i: int)
    requires
        raster_of(width, height, payload) is Ok,
        0 <= i < width as int * height as int,
    ensures
        raster_of(width, height, payload)->Ok_0.pixel_at(i % width as int, i / width as int)
            == payload.subrange(4 * i, 4 * i + 4),
{
    let w = width as int;
    assert(w > 0) by (nonlinear_arith)
        requires 0 <= i < w * height as int, height >= 0;
    assert((i / w) * w + i % w == i) by (nonlinear_arith)
        requires w > 0;
    assert(4 * i + 4 <= byte_len(width, height));
    let v = raster_of(width, height, payload)->Ok_0;
    assert(v.pixel_at(i % w, i / w) =~= payload.subrange(4 * i, 4 * i + 4));
}

/// Bytes whose first four are not the tag are refused as `InvalidFormat`,
/// whatever follows them.
pub proof fn lemma_bad_magic(b: Seq<u8>)
    requires
        b.len() >= 4,
        b.subrange(0, 4) != magic(),
    ensures
        decoded(b) == Err::<RasterView, DecodeError>(DecodeError::InvalidFormat),
{
}

/// A source shorter than the twelve header bytes is refused as
/// `TruncatedHeader`, unless it already shows a wrong tag.
pub proof fn lemma_truncated_header(b: Seq<u8>)
    requires
        b.len() < 12,
        b.len() < 4 || b.subrange(0, 4) == magic(),
    ensures
        decoded(b) == Err::<RasterView, DecodeError>(DecodeError::TruncatedHeader),
{
}

/// A payload that inflates to fewer bytes than the declared dimensions need
/// is refused as `SizeMismatch`.
pub proof fn lemma_size_mismatch(b: Seq<u8>, width: u32, height: u32, payload: Seq<u8>)
    requires
        header_of(b) == Ok::<(u32, u32), DecodeError>((width, height)),
        zlib_inflate(b.subrange(12, b.len() as int)) == Some(payload),
        payload.len() < byte_len(width, height),
    ensures
        decoded(b) == Err::<RasterView, DecodeError>(DecodeError::SizeMismatch),
{
}

/// Encoding depends on the raster alone: equal rasters give byte-identical
/// containers.
pub proof fn lemma_encode_deterministic(a: RasterView, b: RasterView)
    requires
        a == b,
    ensures
        encoded(a) == encoded(b),
{
}

/// Builds the raster for the declared dimensions from an inflated payload.
pub fn raster_from_payload(width: u32, height: u32, payload: &Vec<u8>) -> (r: Result<Raster, DecodeError>)
    ensures
        match r {
            Ok(img) => raster_of(width, height, payload@) == Ok::<RasterView, DecodeError>(img@)
                && img.wf(),
            Err(e) => raster_of(width, height, payload@) == Err::<RasterView, DecodeError>(e),
        },
{
    proof {
        assert(width as int * height as int <= u32::MAX as int * u32::MAX as int)
            by (nonlinear_arith)
            requires width <= u32::MAX, height <= u32::MAX;
    }
    let count: u64 = width as u64 * height as u64;
    let len: usize = payload.len();
    if (len as u64) / 4 < count {
        return Err(DecodeError::SizeMismatch);
    }
    let n: usize = count as usize;
    let mut buffer: Vec<u8> = Vec::new();
    let mut i: usize = 0;
    // Pixel `i` sits at column `i % width`, row `i / width`: in row-major
    // order its four bytes are the `i`-th group of the payload.
    while i < n
        invariant
            i <= n,
            4 * n <= len,
            len == payload@.len(),
            buffer@ == payload@.subrange(0, 4 * i),
        decreases n - i,
    {
        let at: usize = 4 * i;
        buffer.push(payload[at]);
        buffer.push(payload[at + 1]);
        buffer.push(payload[at + 2]);
        buffer.push(payload[at + 3]);
        i = i + 1;
        assert(buffer@ =~= payload@.subrange(0, 4 * i));
    }
    Ok(Raster { width, height, buffer })
}

/// Encodes a raster as a container: tag, little-endian width and height,
/// then the pixel bytes compressed at the strongest zlib level. It always
/// succeeds, and the payload inflates to exactly the pixel bytes.
pub fn encode(raster: &Raster) -> (r: Result<Vec<u8>, EncodeError>)
    requires
        raster.wf(),
    ensures
        r is Ok,
        zlib_inflate(zlib_best(raster@.pixels)) == Some(raster@.pixels),
        match r {
            Ok(bytes) => bytes@ == encoded(raster@)
                && decoded(bytes@) == Ok::<RasterView, DecodeError>(raster@),
            Err(e) => e == EncodeError::EncodeBackendFailure,
        },
{
    match compress_best(&raster.buffer) {
        Some(payload) => {
            proof {
                lemma_decoded_container(raster.width, raster.height, payload@, raster.buffer@);
                assert(raster.buffer@.subrange(0, raster.buffer@.len() as int) =~= raster.buffer@);
            }
            Ok(frame_container(raster.width, raster.height, &payload))
        },
        None => Err(EncodeError::EncodeBackendFailure),
    }
}

/// Decodes container bytes into a raster, or says why they are not one.
pub fn decode(bytes: &Vec<u8>) -> (r: Result<Raster, DecodeError>)
    ensures
        match r {
            Ok(img) => decoded(bytes@) == Ok::<RasterView, DecodeError>(img@) && img.wf(),
            Err(e) => decoded(bytes@) == Err::<RasterView, DecodeError>(e),
        },
{
    let (width, height) = match parse_header(bytes) {
        Ok(dims) => dims,
        Err(e) => return Err(e),
    };
    let mut payload: Vec<u8> = Vec::new();
    let mut i: usize = HEADER_LEN;
    while i < bytes.len()
        invariant
            HEADER_LEN <= i <= bytes@.len(),
            payload@ == bytes@.subrange(12, i as int),
        decreases bytes@.len() - i,
    {
        payload.push(bytes[i]);
        i = i + 1;
        assert(payload@ =~= bytes@.subrange(12, i as int));
    }
    match inflate(&payload) {
        Some(pixels) => raster_from_payload(width, height, &pixels),
        None => Err(DecodeError::CorruptPayload),
    }
}

} // verus!
