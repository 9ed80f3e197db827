use pngrs::chunk::Chunk;
use pngrs::chunk_type::{ChunkType, ChunkTypeError};
use pngrs::error::{ChunkError, PngError};
use pngrs::png::{Png, STANDARD_HEADER};
use std::str::FromStr;

fn chunk_from_strings(chunk_type: &str, data: &str) -> Chunk {
    Chunk::new(
        ChunkType::from_str(chunk_type).unwrap(),
        data.as_bytes().to_vec(),
    )
}

fn testing_chunks() -> Vec<Chunk> {
    vec![
        chunk_from_strings("FrSt", "I am the first chunk"),
        chunk_from_strings("miDl", "I am another chunk"),
        chunk_from_strings("LASt", "I am the last chunk"),
    ]
}

fn testing_png() -> Png {
    Png::from_chunks(testing_chunks())
}

fn file_of(chunks: &[Chunk]) -> Vec<u8> {
    let mut bytes = STANDARD_HEADER.to_vec();
    for chunk in chunks {
        bytes.extend_from_slice(&chunk.as_bytes());
    }
    bytes
}

fn types_of(png: &Png) -> Vec<String> {
    png.chunks()
        .iter()
        .map(|chunk| chunk.chunk_type().to_string())
        .collect()
}

#[test]
fn the_signature_is_that_of_png() {
    assert_eq!(
        STANDARD_HEADER,
        [0x89, 0x50, 0x4E, 0x47, 0x0D, 0x0A, 0x1A, 0x0A]
    );
    assert_eq!(testing_png().header(), &STANDARD_HEADER);
}

#[test]
fn a_document_keeps_the_order_of_its_chunks() {
    let png = testing_png();
    assert_eq!(png.chunks().len(), 3);
    assert_eq!(types_of(&png), ["FrSt", "miDl", "LASt"]);
}

#[test]
fn a_file_is_read_record_by_record() {
    let bytes = file_of(&testing_chunks());
    let png = Png::try_from(bytes.as_ref()).unwrap();
    assert_eq!(types_of(&png), ["FrSt", "miDl", "LASt"]);
    assert_eq!(
        png.chunks()[1].data_as_string().unwrap(),
        "I am another chunk"
    );
    assert_eq!(png.as_bytes(), bytes);
}

#[test]
fn a_signature_alone_is_an_empty_document() {
    let png = Png::try_from(&STANDARD_HEADER[..]).unwrap();
    assert_eq!(png.chunks().len(), 0);
    assert_eq!(png.as_bytes(), STANDARD_HEADER.to_vec());
    assert_eq!(png.to_string(), "");
}

#[test]
fn a_wrong_or_short_signature_is_refused() {
    let mut bytes = file_of(&testing_chunks());
    bytes[0] = 13;
    assert_eq!(
        Png::try_from(bytes.as_ref()).unwrap_err(),
        PngError::InvalidSignature
    );
    let mut last = file_of(&testing_chunks());
    last[7] = 0x0B;
    assert_eq!(
        Png::try_from(last.as_ref()).unwrap_err(),
        PngError::InvalidSignature
    );
    for n in 0..8 {
        assert_eq!(
            Png::try_from(&STANDARD_HEADER[..n]).unwrap_err(),
            PngError::InvalidSignature
        );
    }
}

#[test]
fn a_refused_record_fails_the_whole_document() {
    let good = file_of(&testing_chunks());

    let mut wrong_sum = good.clone();
    let end = wrong_sum.len() - 1;
    wrong_sum[end] ^= 1;
    assert!(matches!(
        Png::try_from(wrong_sum.as_ref()),
        Err(PngError::Chunk(ChunkError::InvalidCrc(_, _)))
    ));

    let mut wrong_type = good.clone();
    wrong_type[8 + 4] = b'1';
    assert_eq!(
        Png::try_from(wrong_type.as_ref()).unwrap_err(),
        PngError::ChunkType(ChunkTypeError::InvalidByte(b'1'))
    );
}

#[test]
fn bytes_left_over_that_form_no_record_are_refused() {
    let good = file_of(&testing_chunks());

    let mut three_more = good.clone();
    three_more.extend_from_slice(&[0, 0, 0]);
    assert_eq!(
        Png::try_from(three_more.as_ref()).unwrap_err(),
        PngError::Chunk(ChunkError::NoDataLengthProvided)
    );

    let mut six_more = good.clone();
    six_more.extend_from_slice(&[0, 0, 0, 0, b'I', b'E']);
    assert_eq!(
        Png::try_from(six_more.as_ref()).unwrap_err(),
        PngError::Chunk(ChunkError::NoChunkTypeProvided)
    );

    assert_eq!(
        Png::try_from(&good[..good.len() - 1]).unwrap_err(),
        PngError::Chunk(ChunkError::NoCrcProvided)
    );
    assert_eq!(
        Png::try_from(&good[..good.len() - 5]).unwrap_err(),
        PngError::Chunk(ChunkError::NonMatchingDataLength(19, 18))
    );
}

#[test]
fn the_next_record_starts_twelve_bytes_and_the_data_on() {
    let chunks = testing_chunks();
    let bytes = file_of(&chunks);
    let mut at = 8;
    for chunk in &chunks {
        let read = Chunk::try_from(&bytes[at..]).unwrap();
        assert_eq!(read.as_bytes(), chunk.as_bytes());
        at += 12 + chunk.length() as usize;
    }
    assert_eq!(at, bytes.len());
}

#[test]
fn a_document_is_written_signature_first() {
    let png = testing_png();
    let bytes = png.as_bytes();
    assert_eq!(bytes, file_of(&testing_chunks()));
    assert_eq!(&bytes[..8], &STANDARD_HEADER);
    assert_eq!(bytes.len(), 8 + (12 + 20) + (12 + 18) + (12 + 19));
}

#[test]
fn reading_what_was_written_and_writing_it_again_gives_the_same_bytes() {
    let written = testing_png().as_bytes();
    let read = Png::try_from(written.as_ref()).unwrap();
    assert_eq!(read.as_bytes(), written);
    let again = Png::try_from(read.as_bytes().as_ref()).unwrap();
    assert_eq!(again.as_bytes(), written);
    assert_eq!(types_of(&again), ["FrSt", "miDl", "LASt"]);
}

#[test]
fn an_appended_chunk_is_found_and_gone_once_removed() {
    let mut png = testing_png();
    let before = png.as_bytes();
    let chunk = chunk_from_strings("TeSt", "Message");
    let written = chunk.as_bytes();
    png.append_chunk(chunk);
    assert_eq!(types_of(&png), ["FrSt", "miDl", "LASt", "TeSt"]);

    let found = png.chunk_by_type("TeSt").unwrap();
    assert_eq!(found.as_bytes(), written);
    assert_eq!(found.data_as_string().unwrap(), "Message");

    let removed = png.remove_chunk("TeSt").unwrap();
    assert_eq!(removed.as_bytes(), written);
    assert!(png.chunk_by_type("TeSt").is_none());
    assert_eq!(png.as_bytes(), before);
}

#[test]
fn the_first_of_two_chunks_of_one_type_is_found_and_removed() {
    let mut png = Png::from_chunks(vec![
        chunk_from_strings("FrSt", "one"),
        chunk_from_strings("TeSt", "two"),
        chunk_from_strings("miDl", "three"),
        chunk_from_strings("TeSt", "four"),
    ]);
    assert_eq!(
        png.chunk_by_type("TeSt").unwrap().data_as_string().unwrap(),
        "two"
    );
    let removed = png.remove_chunk("TeSt").unwrap();
    assert_eq!(removed.data_as_string().unwrap(), "two");
    assert_eq!(types_of(&png), ["FrSt", "miDl", "TeSt"]);
    assert_eq!(
        png.chunk_by_type("TeSt").unwrap().data_as_string().unwrap(),
        "four"
    );
    let removed = png.remove_chunk("TeSt").unwrap();
    assert_eq!(removed.data_as_string().unwrap(), "four");
    assert_eq!(types_of(&png), ["FrSt", "miDl"]);
}

#[test]
fn a_type_that_no_chunk_has_is_not_found() {
    let mut png = testing_png();
    let before = png.as_bytes();
    assert!(png.chunk_by_type("TeSt").is_none());
    assert!(png.chunk_by_type("frst").is_none());
    assert!(png.chunk_by_type("FrS").is_none());
    assert!(png.chunk_by_type("FrStX").is_none());
    assert!(png.chunk_by_type("").is_none());
    assert_eq!(
        png.remove_chunk("TeSt").unwrap_err(),
        PngError::ChunkNotFound(String::from("TeSt"))
    );
    assert_eq!(
        png.remove_chunk("not a code").unwrap_err(),
        PngError::ChunkNotFound(String::from("not a code"))
    );
    assert_eq!(png.as_bytes(), before);
}

#[test]
fn removing_from_the_middle_keeps_the_order_of_the_rest() {
    let mut png = testing_png();
    let removed = png.remove_chunk("miDl").unwrap();
    assert_eq!(removed.data_as_string().unwrap(), "I am another chunk");
    assert_eq!(types_of(&png), ["FrSt", "LASt"]);
    let removed = png.remove_chunk("FrSt").unwrap();
    assert_eq!(removed.data_as_string().unwrap(), "I am the first chunk");
    assert_eq!(types_of(&png), ["LASt"]);
}

#[test]
fn a_document_lists_its_chunk_types_one_to_a_line() {
    assert_eq!(testing_png().to_string(), "FrSt\nmiDl\nLASt\n");
    assert_eq!(Png::from_chunks(Vec::new()).to_string(), "");
}
