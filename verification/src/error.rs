//! What can go wrong while reading a chunk or a document.

use crate::chunk_type::ChunkTypeError;
use vstd::prelude::*;

verus! {

/// Why the bytes of a chunk record were refused.
#[derive(Debug, Clone, Copy, PartialEq, Eq, Structural)]
pub enum ChunkError {
    /// The checksum that the record carries, then the one its type and data give.
    InvalidCrc(u32, u32),
    /// Fewer than four bytes where the length is expected.
    NoDataLengthProvided,
    /// Fewer than four bytes where the type code is expected.
    NoChunkTypeProvided,
    /// The length that the record declares, then the bytes that are left for its data.
    NonMatchingDataLength(usize, usize),
    /// Fewer than four bytes where the checksum is expected.
    NoCrcProvided,
}

/// Any failure of the library.
#[derive(Debug, PartialEq, Eq)]
pub enum PngError {
    /// A chunk type code was refused.
    ChunkType(ChunkTypeError),
    /// A chunk record was refused.
    Chunk(ChunkError),
    /// The data of a chunk is no UTF-8 text.
    InvalidUtf8,
    /// The document does not start with the PNG signature.
    InvalidSignature,
    /// No chunk of the document has this type code.
    ChunkNotFound(String),
}

} // verus!
