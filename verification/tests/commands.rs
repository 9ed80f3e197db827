use pngrs::chunk::Chunk;
use pngrs::chunk_type::{ChunkType, ChunkTypeError};
use pngrs::commands::{decode, encode, print, remove};
use pngrs::error::{ChunkError, PngError};
use pngrs::png::{Png, STANDARD_HEADER};
use std::str::FromStr;

fn sample_file() -> Vec<u8> {
    let chunks = vec![
        Chunk::new(ChunkType::from_str("IHDR").unwrap(), vec![0, 0, 0, 1]),
        Chunk::new(ChunkType::from_str("IDAT").unwrap(), vec![0xFF, 0xD8]),
        Chunk::new(ChunkType::from_str("IEND").unwrap(), Vec::new()),
    ];
    Png::from_chunks(chunks).as_bytes()
}

#[test]
fn an_encoded_message_is_the_last_chunk_of_the_file() {
    let file = sample_file();
    let out = encode(&file, "RuSt", String::from("hello")).unwrap();
    let expected = Chunk::new(ChunkType::from_str("RuSt").unwrap(), b"hello".to_vec());
    assert_eq!(&out[..file.len()], &file[..]);
    assert_eq!(&out[file.len()..], &expected.as_bytes()[..]);
}

#[test]
fn an_encoded_message_is_decoded_and_removed() {
    let file = sample_file();
    let out = encode(&file, "RuSt", String::from("a secret — ✓")).unwrap();
    assert_eq!(decode(&out, "RuSt").unwrap(), "a secret — ✓");
    let (rest, message) = remove(&out, "RuSt").unwrap();
    assert_eq!(message.unwrap(), "a secret — ✓");
    assert_eq!(rest, file);
    assert_eq!(
        decode(&rest, "RuSt").unwrap_err(),
        PngError::ChunkNotFound(String::from("RuSt"))
    );
}

#[test]
fn encode_refuses_a_bad_file_before_a_bad_code() {
    let file = sample_file();
    assert_eq!(
        encode(&file[1..], "Ru1t", String::from("x")).unwrap_err(),
        PngError::InvalidSignature
    );
    assert_eq!(
        encode(&file, "Ru1t", String::from("x")).unwrap_err(),
        PngError::ChunkType(ChunkTypeError::InvalidByte(b'1'))
    );
    assert_eq!(
        encode(&file, "RuStY", String::from("x")).unwrap_err(),
        PngError::ChunkType(ChunkTypeError::InvalidLength(5))
    );
    assert_eq!(
        encode(&file[..file.len() - 1], "RuSt", String::from("x")).unwrap_err(),
        PngError::Chunk(ChunkError::NoCrcProvided)
    );
}

#[test]
fn decode_reads_the_first_chunk_of_the_type() {
    let file = sample_file();
    let once = encode(&file, "RuSt", String::from("first")).unwrap();
    let twice = encode(&once, "RuSt", String::from("second")).unwrap();
    assert_eq!(decode(&twice, "RuSt").unwrap(), "first");
    let (rest, message) = remove(&twice, "RuSt").unwrap();
    assert_eq!(message.unwrap(), "first");
    assert_eq!(decode(&rest, "RuSt").unwrap(), "second");
}

#[test]
fn decode_says_why_it_fails() {
    let file = sample_file();
    assert_eq!(
        decode(&file, "RuSt").unwrap_err(),
        PngError::ChunkNotFound(String::from("RuSt"))
    );
    assert_eq!(decode(&file, "IDAT").unwrap_err(), PngError::InvalidUtf8);
    assert_eq!(
        decode(&file[..7], "IDAT").unwrap_err(),
        PngError::InvalidSignature
    );
    assert_eq!(decode(&file, "IEND").unwrap(), "");
}

#[test]
fn remove_hands_over_the_file_even_where_the_message_is_no_text() {
    let file = sample_file();
    let (rest, message) = remove(&file, "IDAT").unwrap();
    assert_eq!(message, Err(PngError::InvalidUtf8));
    let left = Png::try_from(rest.as_ref()).unwrap();
    assert_eq!(left.to_string(), "IHDR\nIEND\n");
}

#[test]
fn remove_says_why_it_fails() {
    let file = sample_file();
    assert_eq!(
        remove(&file, "RuSt").unwrap_err(),
        PngError::ChunkNotFound(String::from("RuSt"))
    );
    let mut bad = file.clone();
    bad[3] = 0;
    assert_eq!(
        remove(&bad, "IDAT").unwrap_err(),
        PngError::InvalidSignature
    );
}

#[test]
fn print_lists_the_chunk_types() {
    let file = sample_file();
    assert_eq!(print(&file).unwrap(), "IHDR\nIDAT\nIEND\n");
    assert_eq!(print(&STANDARD_HEADER).unwrap(), "");
    assert_eq!(print(&file[..20]).unwrap_err(), PngError::Chunk(ChunkError::NoCrcProvided));
    assert_eq!(print(b"not a png").unwrap_err(), PngError::InvalidSignature);
}
