use std::io::Write;

use shivanosh::codec::{decode, encode, raster_from_payload};
use shivanosh::container::{frame_container, parse_header};
use shivanosh::error::{DecodeError, EncodeError};
use shivanosh::raster::Raster;

fn zlib_best(data: &[u8]) -> Vec<u8> {
    let mut e = flate2::write::ZlibEncoder::new(Vec::new(), flate2::Compression::best());
    e.write_all(data).unwrap();
    e.finish().unwrap()
}

fn container_of(width: u32, height: u32, payload: &[u8]) -> Vec<u8> {
    let mut out = b"MYIF".to_vec();
    out.extend_from_slice(&width.to_le_bytes());
    out.extend_from_slice(&height.to_le_bytes());
    out.extend_from_slice(payload);
    out
}

#[test]
fn round_trip_keeps_every_pixel() {
    let width = 7u32;
    let height = 5u32;
    let buffer: Vec<u8> = (0..width * height * 4).map(|i| (i * 37 % 251) as u8).collect();
    let raster = Raster::from_rgba(width, height, buffer).unwrap();
    let bytes = encode(&raster).unwrap();
    assert_eq!(decode(&bytes), Ok(raster));
}

#[test]
fn round_trip_single_row_and_column() {
    for (w, h) in [(1u32, 9u32), (9, 1), (1, 1)] {
        let buffer: Vec<u8> = (0..w * h * 4).map(|i| (255 - i % 256) as u8).collect();
        let raster = Raster::from_rgba(w, h, buffer).unwrap();
        assert_eq!(decode(&encode(&raster).unwrap()), Ok(raster));
    }
}

#[test]
fn zero_size_round_trip() {
    let raster = Raster { width: 0, height: 0, buffer: vec![] };
    let bytes = encode(&raster).unwrap();
    let back = decode(&bytes).unwrap();
    assert_eq!(back, Raster::empty());
    assert!(back.buffer.is_empty());
}

#[test]
fn zero_width_with_rows_is_empty() {
    let raster = Raster { width: 0, height: 3, buffer: vec![] };
    assert_eq!(decode(&encode(&raster).unwrap()), Ok(raster));
}

#[test]
fn bad_magic_all_zeros() {
    assert_eq!(decode(&vec![0u8; 32]), Err(DecodeError::InvalidFormat));
    assert_eq!(decode(&vec![0u8; 4]), Err(DecodeError::InvalidFormat));
    let mut good = container_of(1, 1, &zlib_best(&[1, 2, 3, 4]));
    good[3] = b'G';
    assert_eq!(decode(&good), Err(DecodeError::InvalidFormat));
}

#[test]
fn truncated_header() {
    assert_eq!(decode(&vec![]), Err(DecodeError::TruncatedHeader));
    assert_eq!(decode(&b"MYI".to_vec()), Err(DecodeError::TruncatedHeader));
    assert_eq!(decode(&b"MYIF".to_vec()), Err(DecodeError::TruncatedHeader));
    let mut short = b"MYIF".to_vec();
    short.extend_from_slice(&[2, 0, 0, 0, 1, 0, 0]);
    assert_eq!(short.len(), 11);
    assert_eq!(decode(&short), Err(DecodeError::TruncatedHeader));
}

#[test]
fn size_mismatch() {
    let bytes = container_of(10, 10, &zlib_best(&[7u8; 50]));
    assert_eq!(decode(&bytes), Err(DecodeError::SizeMismatch));
}

#[test]
fn corrupt_payload() {
    let bytes = container_of(1, 1, &[1, 2, 3, 4, 5, 6]);
    assert_eq!(decode(&bytes), Err(DecodeError::CorruptPayload));
    let mut cut = zlib_best(&[9u8; 64]);
    cut.truncate(cut.len() - 5);
    assert_eq!(decode(&container_of(4, 4, &cut)), Err(DecodeError::CorruptPayload));
    assert_eq!(decode(&container_of(0, 0, &[])), Err(DecodeError::CorruptPayload));
}

#[test]
fn excess_payload_is_ignored() {
    let bytes = container_of(1, 1, &zlib_best(&[1, 2, 3, 4, 5, 6, 7]));
    assert_eq!(decode(&bytes), Ok(Raster { width: 1, height: 1, buffer: vec![1, 2, 3, 4] }));
}

#[test]
fn encoding_is_deterministic() {
    let buffer: Vec<u8> = (0..64u32).map(|i| (i * 3) as u8).collect();
    let raster = Raster::from_rgba(4, 4, buffer).unwrap();
    assert_eq!(encode(&raster).unwrap(), encode(&raster.clone()).unwrap());
}

#[test]
fn concrete_two_pixel_example() {
    let pixels = vec![255, 0, 0, 255, 0, 255, 0, 128];
    let raster = Raster::from_rgba(2, 1, pixels.clone()).unwrap();
    let bytes = encode(&raster).unwrap();
    let mut expected = b"MYIF".to_vec();
    expected.extend_from_slice(&[2, 0, 0, 0, 1, 0, 0, 0]);
    expected.extend_from_slice(&zlib_best(&pixels));
    assert_eq!(bytes, expected);
    let back = decode(&bytes).unwrap();
    assert_eq!(back.pixel(0, 0), Some((255, 0, 0, 255)));
    assert_eq!(back.pixel(1, 0), Some((0, 255, 0, 128)));
    assert_eq!(back, raster);
}

#[test]
fn payload_is_compressed() {
    let raster = Raster::from_rgba(10, 10, vec![0u8; 400]).unwrap();
    let bytes = encode(&raster).unwrap();
    assert!(bytes.len() < 12 + 400);
    assert_ne!(&bytes[12..], &raster.buffer[..]);
    // An uncompressed payload is not a zlib stream.
    assert_eq!(decode(&container_of(10, 10, &raster.buffer)), Err(DecodeError::CorruptPayload));
}

#[test]
fn payload_to_raster() {
    assert_eq!(
        raster_from_payload(2, 1, &vec![1, 2, 3, 4, 5, 6, 7, 8, 9]),
        Ok(Raster { width: 2, height: 1, buffer: vec![1, 2, 3, 4, 5, 6, 7, 8] })
    );
    assert_eq!(raster_from_payload(2, 2, &vec![0; 15]), Err(DecodeError::SizeMismatch));
    assert_eq!(
        raster_from_payload(u32::MAX, u32::MAX, &vec![0; 16]),
        Err(DecodeError::SizeMismatch)
    );
    assert_eq!(raster_from_payload(0, 5, &vec![]), Ok(Raster { width: 0, height: 5, buffer: vec![] }));
}

#[test]
fn header_framing() {
    let framed = frame_container(0x0403_0201, 0x0807_0605, &vec![0xaa, 0xbb]);
    assert_eq!(framed, vec![b'M', b'Y', b'I', b'F', 1, 2, 3, 4, 5, 6, 7, 8, 0xaa, 0xbb]);
    assert_eq!(parse_header(&framed), Ok((0x0403_0201, 0x0807_0605)));
    assert_eq!(parse_header(&vec![b'M', b'Y', b'I', b'F', 0xff, 0xff, 0xff, 0xff, 0, 0, 0, 0]), Ok((u32::MAX, 0)));
    assert_eq!(parse_header(&b"MYIX00000000".to_vec()), Err(DecodeError::InvalidFormat));
    assert_eq!(parse_header(&b"MY".to_vec()), Err(DecodeError::TruncatedHeader));
}

#[test]
fn raster_construction_and_pixels() {
    assert!(Raster::from_rgba(2, 2, vec![0; 15]).is_none());
    assert!(Raster::from_rgba(2, 2, vec![0; 17]).is_none());
    let r = Raster::from_rgba(2, 2, (0..16u8).collect()).unwrap();
    assert_eq!(r.pixel(0, 0), Some((0, 1, 2, 3)));
    assert_eq!(r.pixel(1, 1), Some((12, 13, 14, 15)));
    assert_eq!(r.pixel(0, 1), Some((8, 9, 10, 11)));
    assert_eq!(r.pixel(2, 0), None);
    assert_eq!(r.pixel(0, 2), None);
}

#[test]
fn error_messages() {
    assert_eq!(DecodeError::InvalidFormat.message(), "invalid .shivanosh file");
    assert_eq!(DecodeError::SizeMismatch.message(), "payload smaller than the declared dimensions");
    assert_eq!(EncodeError::EncodeBackendFailure.message(), "compression failed");
}
