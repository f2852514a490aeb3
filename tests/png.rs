use pngme::chunk::Chunk;
use pngme::chunk_type::ChunkType;
use pngme::commands::{decode_message, encode_message, find_chunk, remove_message};
use pngme::error::PngError;
use pngme::png::{standard_header, Png};
use std::str::FromStr;

fn chunk(tag: &str, data: &[u8]) -> Chunk {
    Chunk::new(ChunkType::from_str(tag).unwrap(), data.to_vec())
}

fn minimal_png() -> Vec<u8> {
    let mut out = vec![0x89, 0x50, 0x4E, 0x47, 0x0D, 0x0A, 0x1A, 0x0A];
    out.extend(chunk("IHDR", &[0, 0, 0, 1, 0, 0, 0, 1, 8, 2, 0, 0, 0]).as_bytes());
    out.extend(vec![0, 0, 0, 0, 73, 69, 78, 68, 0xAE, 0x42, 0x60, 0x82]);
    out
}

#[test]
fn signature_is_the_png_magic() {
    assert_eq!(standard_header(), [137, 80, 78, 71, 13, 10, 26, 10]);
}

#[test]
fn minimal_png_parses_and_serializes_back() {
    let bytes = minimal_png();
    let png = Png::try_from(bytes.as_slice()).unwrap();
    assert_eq!(png.chunks().len(), 2);
    assert_eq!(png.chunks()[0].chunk_type().to_string(), "IHDR");
    assert_eq!(png.chunks()[1].chunk_type().to_string(), "IEND");
    assert_eq!(png.as_bytes(), bytes);
}

#[test]
fn signature_alone_is_an_empty_png() {
    let png = Png::try_from(&[0x89u8, 0x50, 0x4E, 0x47, 0x0D, 0x0A, 0x1A, 0x0A][..]).unwrap();
    assert_eq!(png.chunks().len(), 0);
}

#[test]
fn bad_signature_is_rejected() {
    let mut bytes = minimal_png();
    bytes[1] = b'Q';
    assert_eq!(Png::try_from(bytes.as_slice()).unwrap_err(), PngError::BadSignature);
    assert_eq!(Png::try_from(&[0x89u8, 0x50][..]).unwrap_err(), PngError::BadSignature);
}

#[test]
fn truncated_stream_is_rejected() {
    let bytes = minimal_png();
    let cut = &bytes[..bytes.len() - 1];
    assert_eq!(Png::try_from(cut).unwrap_err(), PngError::TruncatedStream);
    let mut partial_header = bytes[..8].to_vec();
    partial_header.extend([0, 0]);
    assert_eq!(Png::try_from(partial_header.as_slice()).unwrap_err(), PngError::TruncatedStream);
}

#[test]
fn oversized_length_is_rejected() {
    let mut bytes = minimal_png()[..8].to_vec();
    bytes.extend([0x80, 0, 0, 0, 73, 69, 78, 68, 0, 0, 0, 0]);
    assert_eq!(Png::try_from(bytes.as_slice()).unwrap_err(), PngError::InvalidLength);
}

#[test]
fn corrupt_crc_in_stream_is_rejected() {
    let mut bytes = minimal_png();
    let last = bytes.len() - 1;
    bytes[last] ^= 1;
    assert_eq!(Png::try_from(bytes.as_slice()).unwrap_err(), PngError::InvalidCrc);
}

#[test]
fn append_then_remove_restores_the_png() {
    let bytes = minimal_png();
    let mut png = Png::try_from(bytes.as_slice()).unwrap();
    png.append_chunk(chunk("ruSt", b"secret"));
    assert_eq!(png.chunks().len(), 3);
    assert_eq!(png.chunks()[2].chunk_type().to_string(), "ruSt");
    let removed = png.remove_first_chunk("ruSt").unwrap();
    assert_eq!(removed.data(), b"secret");
    assert_eq!(png.as_bytes(), bytes);
}

#[test]
fn remove_takes_the_first_match_only() {
    let mut png = Png::from_chunks(vec![
        chunk("IHDR", b""),
        chunk("ruSt", b"one"),
        chunk("ruSt", b"two"),
        chunk("IEND", b""),
    ]);
    let first = png.remove_first_chunk("ruSt").unwrap();
    assert_eq!(first.data(), b"one");
    assert_eq!(png.chunk_by_type("ruSt").unwrap().data(), b"two");
    assert_eq!(png.chunks().len(), 3);
}

#[test]
fn missing_tag_is_not_found() {
    let mut png = Png::try_from(minimal_png().as_slice()).unwrap();
    assert_eq!(png.remove_first_chunk("ruSt").unwrap_err(), PngError::ChunkNotFound);
    assert!(png.chunk_by_type("ruSt").is_none());
    assert_eq!(png.chunks().len(), 2);
}

#[test]
fn encode_decode_remove_end_to_end() {
    let input = minimal_png();
    let encoded = encode_message(&input, "ruSt", "hello").unwrap();
    assert_eq!(decode_message(&encoded, "ruSt").unwrap(), "hello");
    let (after, removed) = remove_message(&encoded, "ruSt").unwrap();
    assert_eq!(removed.data_as_string().unwrap(), "hello");
    assert_eq!(after, input);
}

#[test]
fn encode_appends_after_iend() {
    let input = minimal_png();
    let encoded = encode_message(&input, "ruSt", "hi").unwrap();
    let png = Png::try_from(encoded.as_slice()).unwrap();
    assert_eq!(png.chunks()[1].chunk_type().to_string(), "IEND");
    assert_eq!(png.chunks()[2].chunk_type().to_string(), "ruSt");
    assert_eq!(encoded.len(), input.len() + 12 + 2);
}

#[test]
fn encode_rejects_bad_tag_and_bad_png() {
    let input = minimal_png();
    assert_eq!(encode_message(&input, "ru1t", "x").unwrap_err(), PngError::InvalidChunkType);
    assert_eq!(encode_message(&input, "ruStt", "x").unwrap_err(), PngError::InvalidChunkType);
    assert_eq!(encode_message(&input[1..], "ruSt", "x").unwrap_err(), PngError::BadSignature);
}

#[test]
fn decode_and_find_report_missing_tag() {
    let input = minimal_png();
    assert_eq!(decode_message(&input, "ruSt").unwrap_err(), PngError::ChunkNotFound);
    assert_eq!(find_chunk(&input, "ruSt").unwrap_err(), PngError::ChunkNotFound);
    assert_eq!(remove_message(&input, "ruSt").unwrap_err(), PngError::ChunkNotFound);
    assert_eq!(find_chunk(&input, "IHDR").unwrap().length(), 13);
}

#[test]
fn decode_of_binary_chunk_is_not_utf8() {
    let mut png = Png::try_from(minimal_png().as_slice()).unwrap();
    png.append_chunk(chunk("ruSt", &[0xC3, 0x28]));
    let bytes = png.as_bytes();
    assert_eq!(decode_message(&bytes, "ruSt").unwrap_err(), PngError::NotUtf8);
}
