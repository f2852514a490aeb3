use pngme::chunk::Chunk;
use pngme::chunk_type::ChunkType;
use pngme::error::PngError;
use std::convert::TryFrom;
use std::str::FromStr;

fn testing_chunk() -> Chunk {
    let data_length: u32 = 42;
    let chunk_type = "RuSt".as_bytes();
    let message_bytes = "This is where your secret message will be!".as_bytes();
    let crc: u32 = 2882656334;

    let chunk_data: Vec<u8> = data_length
        .to_be_bytes()
        .iter()
        .chain(chunk_type.iter())
        .chain(message_bytes.iter())
        .chain(crc.to_be_bytes().iter())
        .copied()
        .collect();

    Chunk::try_from(chunk_data.as_ref()).unwrap()
}

fn serialized(data_length: u32, chunk_type: &[u8], message: &[u8], crc: u32) -> Vec<u8> {
    data_length
        .to_be_bytes()
        .iter()
        .chain(chunk_type.iter())
        .chain(message.iter())
        .chain(crc.to_be_bytes().iter())
        .copied()
        .collect()
}

#[test]
fn test_new_chunk() {
    let chunk_type = ChunkType::from_str("RuSt").unwrap();
    let data = "This is where your secret message will be!".as_bytes().to_vec();
    let chunk = Chunk::new(chunk_type, data);
    assert_eq!(chunk.length(), 42);
    assert_eq!(chunk.crc(), 2882656334);
}

#[test]
fn test_chunk_length() {
    let chunk = testing_chunk();
    assert_eq!(chunk.length(), 42);
}

#[test]
fn test_chunk_type() {
    let chunk = testing_chunk();
    assert_eq!(chunk.chunk_type().to_string(), String::from("RuSt"));
}

#[test]
fn test_chunk_string() {
    let chunk = testing_chunk();
    let chunk_string = chunk.data_as_string().unwrap();
    let expected_chunk_string = String::from("This is where your secret message will be!");
    assert_eq!(chunk_string, expected_chunk_string);
}

#[test]
fn test_chunk_crc() {
    let chunk = testing_chunk();
    assert_eq!(chunk.crc(), 2882656334);
}

#[test]
fn test_valid_chunk_from_bytes() {
    let data_length: u32 = 42;
    let chunk_type = "RuSt".as_bytes();
    let message_bytes = "This is where your secret message will be!".as_bytes();
    let crc: u32 = 2882656334;

    let chunk_data: Vec<u8> = data_length
        .to_be_bytes()
        .iter()
        .chain(chunk_type.iter())
        .chain(message_bytes.iter())
        .chain(crc.to_be_bytes().iter())
        .copied()
        .collect();

    let chunk = Chunk::try_from(chunk_data.as_ref()).unwrap();

    let chunk_string = chunk.data_as_string().unwrap();
    let expected_chunk_string = String::from("This is where your secret message will be!");

    assert_eq!(chunk.length(), 42);
    assert_eq!(chunk.chunk_type().to_string(), String::from("RuSt"));
    assert_eq!(chunk_string, expected_chunk_string);
    assert_eq!(chunk.crc(), 2882656334);
}

#[test]
fn test_invalid_chunk_from_bytes() {
    let data_length: u32 = 42;
    let chunk_type = "RuSt".as_bytes();
    let message_bytes = "This is where your secret message will be!".as_bytes();
    let crc: u32 = 2882656333;

    let chunk_data: Vec<u8> = data_length
        .to_be_bytes()
        .iter()
        .chain(chunk_type.iter())
        .chain(message_bytes.iter())
        .chain(crc.to_be_bytes().iter())
        .copied()
        .collect();

    let chunk = Chunk::try_from(chunk_data.as_ref());

    assert!(chunk.is_err());
}

#[test]
pub fn test_chunk_trait_impls() {
    let data_length: u32 = 42;
    let chunk_type = "RuSt".as_bytes();
    let message_bytes = "This is where your secret message will be!".as_bytes();
    let crc: u32 = 2882656334;

    let chunk_data: Vec<u8> = data_length
        .to_be_bytes()
        .iter()
        .chain(chunk_type.iter())
        .chain(message_bytes.iter())
        .chain(crc.to_be_bytes().iter())
        .copied()
        .collect();

    let chunk: Chunk = TryFrom::try_from(chunk_data.as_ref()).unwrap();

    let _chunk_string = format!("{:?}", chunk);
}

#[test]
fn wrong_crc_gives_invalid_crc() {
    let bytes = serialized(42, b"RuSt", b"This is where your secret message will be!", 2882656333);
    assert_eq!(Chunk::try_from(bytes.as_slice()).unwrap_err(), PngError::InvalidCrc);
}

#[test]
fn chunk_serializes_to_its_input() {
    let bytes = serialized(42, b"RuSt", b"This is where your secret message will be!", 2882656334);
    let chunk = Chunk::try_from(bytes.as_slice()).unwrap();
    assert_eq!(chunk.as_bytes(), bytes);
    assert_eq!(chunk.data(), b"This is where your secret message will be!");
}

#[test]
fn new_chunk_round_trips_through_bytes() {
    let t = ChunkType::from_str("ruSt").unwrap();
    let c = Chunk::new(t, b"hello".to_vec());
    let back = Chunk::try_from(c.as_bytes().as_slice()).unwrap();
    assert_eq!(back.length(), c.length());
    assert_eq!(back.crc(), c.crc());
    assert_eq!(back.data(), c.data());
    assert_eq!(back.chunk_type(), c.chunk_type());
}

#[test]
fn empty_data_chunk_has_crc_of_type_alone() {
    let t = ChunkType::from_str("IEND").unwrap();
    let c = Chunk::new(t, Vec::new());
    assert_eq!(c.length(), 0);
    assert_eq!(c.crc(), 0xAE42_6082);
    assert_eq!(c.as_bytes(), vec![0, 0, 0, 0, 73, 69, 78, 68, 0xAE, 0x42, 0x60, 0x82]);
}

#[test]
fn short_input_gives_invalid_length() {
    assert_eq!(Chunk::try_from(&[0u8, 0, 0, 0, 73, 69, 78][..]).unwrap_err(), PngError::InvalidLength);
    assert_eq!(Chunk::try_from(&[][..]).unwrap_err(), PngError::InvalidLength);
}

#[test]
fn length_disagreeing_with_input_gives_invalid_length() {
    let mut bytes = serialized(5, b"ruSt", b"hello", 0);
    bytes[3] = 6;
    assert_eq!(Chunk::try_from(bytes.as_slice()).unwrap_err(), PngError::InvalidLength);
    let huge = serialized(0x8000_0000, b"ruSt", b"", 0);
    assert_eq!(Chunk::try_from(huge.as_slice()).unwrap_err(), PngError::InvalidLength);
}

#[test]
fn non_letter_type_gives_invalid_chunk_type() {
    let bytes = serialized(0, b"Ru1t", b"", 0);
    assert_eq!(Chunk::try_from(bytes.as_slice()).unwrap_err(), PngError::InvalidChunkType);
}

#[test]
fn non_utf8_data_gives_not_utf8() {
    let t = ChunkType::from_str("ruSt").unwrap();
    let c = Chunk::new(t, vec![0xff, 0xfe, 0x41]);
    assert_eq!(c.data_as_string(), Err(PngError::NotUtf8));
}

#[test]
fn single_bit_flip_in_data_or_type_case_fails_crc() {
    let good = serialized(42, b"RuSt", b"This is where your secret message will be!", 2882656334);
    for i in 8..good.len() - 4 {
        for bit in 0..8 {
            let mut bad = good.clone();
            bad[i] ^= 1 << bit;
            assert_eq!(Chunk::try_from(bad.as_slice()).unwrap_err(), PngError::InvalidCrc);
        }
    }
    for i in 4..8 {
        let mut bad = good.clone();
        bad[i] ^= 0x20;
        assert_eq!(Chunk::try_from(bad.as_slice()).unwrap_err(), PngError::InvalidCrc);
    }
}
