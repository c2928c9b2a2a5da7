use vstd::prelude::*;
use crate::error::DecodeError;

verus! {

/// The four-byte tag that opens every container: ASCII `MYIF`.
pub open spec fn magic() -> Seq<u8> {
    seq![0x4du8, 0x59u8, 0x49u8, 0x46u8]
}

/// The four little-endian bytes of `v`.
pub open spec fn le_bytes(v: u32) -> Seq<u8> {
    seq![
        (v % 0x100) as u8,
        ((v / 0x100) % 0x100) as u8,
        ((v / 0x1_0000) % 0x100) as u8,
        (v / 0x100_0000) as u8,
    ]
}

/// The value of four little-endian bytes starting at `at`.
pub open spec fn le_value(b: Seq<u8>, at: int) -> int {
    b[at] + 0x100 * b[at + 1] + 0x1_0000 * b[at + 2] + 0x100_0000 * b[at + 3]
}

/// Bytes before the compressed payload: tag, width, height.
pub open spec fn header(width: u32, height: u32) -> Seq<u8> {
    magic() + le_bytes(width) + le_bytes(height)
}

/// A whole container: the header followed by the compressed payload.
pub open spec fn container(width: u32, height: u32, payload: Seq<u8>) -> Seq<u8> {
    header(width, height) + payload
}

/// Length of the fixed header.
pub const HEADER_LEN: usize = 12;

/// What reading the header of `b` yields: the dimensions, or the error.
pub open spec fn header_of(b: Seq<u8>) -> Result<(u32, u32), DecodeError> {
    if b.len() < 4 {
        Err(DecodeError::TruncatedHeader)
    } else if b.subrange(0, 4) != magic() {
        Err(DecodeError::InvalidFormat)
    } else if b.len() < 12 {
        Err(DecodeError::TruncatedHeader)
    } else {
        Ok((le_value(b, 4) as u32, le_value(b, 8) as u32))
    }
}

/// Little-endian bytes of a `u32` read back give the same value.
pub proof fn lemma_le_round_trip(v: u32)
    ensures
        le_value(le_bytes(v), 0) == v,
{
    let b = le_bytes(v);
    assert(b[0] + 0x100 * b[1] + 0x1_0000 * b[2] + 0x100_0000 * b[3] == v) by (nonlinear_arith)
        requires
            b[0] == v % 0x100,
            b[1] == (v / 0x100) % 0x100,
            b[2] == (v / 0x1_0000) % 0x100,
            b[3] == v / 0x100_0000,
            0 <= v < 0x1_0000_0000,
    ;
}

/// The header of a framed container reads back as the dimensions it was made from.
pub proof fn lemma_header_of_container(width: u32, height: u32, payload: Seq<u8>)
    ensures
        header_of(container(width, height, payload)) == Ok::<(u32, u32), DecodeError>((width, height)),
        container(width, height, payload).subrange(12, container(width, height, payload).len() as int)
            == payload,
{
    let c = container(width, height, payload);
    lemma_le_round_trip(width);
    lemma_le_round_trip(height);
    assert(c.subrange(0, 4) =~= magic());
    assert(le_value(c, 4) == le_value(le_bytes(width), 0));
    assert(le_value(c, 8) == le_value(le_bytes(height), 0));
    assert(c.subrange(12, c.len() as int) =~= payload);
}

fn push_u32_le(out: &mut Vec<u8>, v: u32)
    ensures
        final(out)@ == old(out)@ + le_bytes(v),
{
    out.push((v % 0x100) as u8);
    out.push(((v / 0x100) % 0x100) as u8);
    out.push(((v / 0x1_0000) % 0x100) as u8);
    out.push((v / 0x100_0000) as u8);
    proof {
        assert(final(out)@ =~= old(out)@ + le_bytes(v));
    }
}

fn read_u32_le(b: &Vec<u8>, at: usize) -> (r: u32)
    requires
        at + 4 <= b@.len(),
    ensures
        r == le_value(b@, at as int),
{
    let n: usize = b.len();
    assert(at + 4 <= n);
    let v: u64 = b[at] as u64 + 0x100 * (b[at + 1] as u64) + 0x1_0000 * (b[at + 2] as u64)
        + 0x100_0000 * (b[at + 3] as u64);
    v as u32
}

/// Frames a compressed payload behind the header for a `width` by `height` raster.
pub fn frame_container(width: u32, height: u32, payload: &Vec<u8>) -> (r: Vec<u8>)
    ensures
        r@ == container(width, height, payload@),
{
    let mut out: Vec<u8> = Vec::new();
    out.push(0x4d);
    out.push(0x59);
    out.push(0x49);
    out.push(0x46);
    assert(out@ =~= magic());
    push_u32_le(&mut out, width);
    push_u32_le(&mut out, height);
    let mut i: usize = 0;
    while i < payload.len()
        invariant
            i <= payload@.len(),
            out@ == header(width, height) + payload@.subrange(0, i as int),
        decreases payload@.len() - i,
    {
        out.push(payload[i]);
        i = i + 1;
        assert(out@ =~= header(width, height) + payload@.subrange(0, i as int));
    }
    assert(payload@.subrange(0, i as int) =~= payload@);
    out
}

/// Reads the tag and the dimensions at the front of `bytes`.
pub fn parse_header(bytes: &Vec<u8>) -> (r: Result<(u32, u32), DecodeError>)
    ensures
        r == header_of(bytes@),
{
    if bytes.len() < 4 {
        return Err(DecodeError::TruncatedHeader);
    }
    if !(bytes[0] == 0x4d && bytes[1] == 0x59 && bytes[2] == 0x49 && bytes[3] == 0x46) {
        assert(bytes@.subrange(0, 4) != magic()) by {
            if bytes@.subrange(0, 4) == magic() {
                assert(bytes@.subrange(0, 4)[0] == bytes@[0]);
                assert(bytes@.subrange(0, 4)[1] == bytes@[1]);
                assert(bytes@.subrange(0, 4)[2] == bytes@[2]);
                assert(bytes@.subrange(0, 4)[3] == bytes@[3]);
            }
        }
        return Err(DecodeError::InvalidFormat);
    }
    assert(bytes@.subrange(0, 4) =~= magic());
    if bytes.len() < HEADER_LEN {
        return Err(DecodeError::TruncatedHeader);
    }
    Ok((read_u32_le(bytes, 4), read_u32_le(bytes, 8)))
}

} // verus!
