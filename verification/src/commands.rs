//! The four operations on the bytes of a PNG file: hide a message in a
//! chunk, read it back, take it out, and list the chunks.

use crate::chunk::{Chunk, ChunkView};
use crate::chunk_type::ChunkType;
use crate::error::PngError;
use crate::png::{first_match, listing, parse_png, png_wire, Png};
use vstd::prelude::*;
use vstd::slice::slice_to_vec;
use vstd::string::StringSliceAdditionalSpecFns;
use vstd::utf8::*;

verus! {

/// The file that `encode` writes: the records of `file`, then one of type
/// `code` that holds `message`. A file that cannot be read is refused
/// first, then a code that is no chunk type.
pub open spec fn encoded(file: Seq<u8>, code: Seq<u8>, message: Seq<u8>) -> Result<
    Seq<u8>,
    PngError,
> {
    match parse_png(file) {
        Err(e) => Err(e),
        Ok(chunks) => match ChunkType::parsed(code) {
            Err(e) => Err(PngError::ChunkType(e)),
            Ok(chunk_type) => Ok(
                png_wire(chunks.push(ChunkView { code: chunk_type@, data: message })),
            ),
        },
    }
}

/// Appends to the document in `file` a chunk of type `code` whose data is
/// `message`, and gives the bytes of the new file.
pub fn encode(file: &[u8], code: &str, message: String) -> (out: Result<Vec<u8>, PngError>)
    requires
        encode_utf8(message@).len() <= u32::MAX,
    ensures
        match out {
            Ok(bytes) => encoded(file@, code.spec_bytes(), encode_utf8(message@)) == Ok::<
                Seq<u8>,
                PngError,
            >(bytes@),
            Err(e) => encoded(file@, code.spec_bytes(), encode_utf8(message@)) == Err::<
                Seq<u8>,
                PngError,
            >(e),
        },
{
    let mut png = match Png::try_from(file) {
        Ok(png) => png,
        Err(e) => {
            return Err(e);
        },
    };
    let chunk_type = match ChunkType::from_str(code) {
        Ok(chunk_type) => chunk_type,
        Err(e) => {
            return Err(PngError::ChunkType(e));
        },
    };
    let chunk = Chunk::new(chunk_type, slice_to_vec(message.as_str().as_bytes()));
    png.append_chunk(chunk);
    Ok(png.as_bytes())
}

/// Reads the message of the first chunk of type `code` in `file`.
pub fn decode(file: &[u8], code: &str) -> (out: Result<String, PngError>)
    ensures
        match out {
            Ok(message) => {
                &&& parse_png(file@) matches Ok(chunks)
                &&& first_match(chunks, code@) < chunks.len()
                &&& valid_utf8(chunks[first_match(chunks, code@)].data)
                &&& message@ == decode_utf8(chunks[first_match(chunks, code@)].data)
            },
            Err(e) => match parse_png(file@) {
                Err(refused) => e == refused,
                Ok(chunks) => if first_match(chunks, code@) == chunks.len() {
                    e matches PngError::ChunkNotFound(wanted) && wanted@ == code@
                } else {
                    !valid_utf8(chunks[first_match(chunks, code@)].data) && e
                        == PngError::InvalidUtf8
                },
            },
        },
{
    let png = match Png::try_from(file) {
        Ok(png) => png,
        Err(e) => {
            return Err(e);
        },
    };
    match png.chunk_by_type(code) {
        Some(chunk) => chunk.data_as_string(),
        None => Err(PngError::ChunkNotFound(code.to_owned())),
    }
}

/// Takes the first chunk of type `code` out of `file`. Gives the bytes of
/// the file without it, and its message, or why the message is no text.
pub fn remove(file: &[u8], code: &str) -> (out: Result<
    (Vec<u8>, Result<String, PngError>),
    PngError,
>)
    ensures
        match out {
            Ok((bytes, message)) => {
                &&& parse_png(file@) matches Ok(chunks)
                &&& first_match(chunks, code@) < chunks.len()
                &&& bytes@ == png_wire(chunks.remove(first_match(chunks, code@)))
                &&& match message {
                    Ok(text) => valid_utf8(chunks[first_match(chunks, code@)].data) && text@
                        == decode_utf8(chunks[first_match(chunks, code@)].data),
                    Err(e) => !valid_utf8(chunks[first_match(chunks, code@)].data) && e
                        == PngError::InvalidUtf8,
                }
            },
            Err(e) => match parse_png(file@) {
                Err(refused) => e == refused,
                Ok(chunks) => {
                    &&& first_match(chunks, code@) == chunks.len()
                    &&& e matches PngError::ChunkNotFound(wanted)
                    &&& wanted@ == code@
                },
            },
        },
{
    let mut png = match Png::try_from(file) {
        Ok(png) => png,
        Err(e) => {
            return Err(e);
        },
    };
    let chunk = match png.remove_chunk(code) {
        Ok(chunk) => chunk,
        Err(e) => {
            return Err(e);
        },
    };
    let bytes = png.as_bytes();
    Ok((bytes, chunk.data_as_string()))
}

/// Lists the chunk types of the document in `file`, one to a line.
pub fn print(file: &[u8]) -> (out: Result<String, PngError>)
    ensures
        match out {
            Ok(text) => parse_png(file@) matches Ok(chunks) && text@ == listing(chunks),
            Err(e) => parse_png(file@) == Err::<Seq<ChunkView>, PngError>(e),
        },
{
    match Png::try_from(file) {
        Ok(png) => Ok(png.to_string()),
        Err(e) => Err(e),
    }
}

} // verus!
