//! Codec for the chunk framing of PNG files: chunk type codes, checksummed
//! chunk records, and the document that holds them in order.

pub mod checksum;
pub mod chunk;
pub mod chunk_type;
pub mod commands;
pub mod error;
pub mod png;
pub mod text;
pub mod wire;

pub use chunk::Chunk;
pub use chunk_type::{ChunkType, ChunkTypeError};
pub use error::{ChunkError, PngError};
pub use png::Png;
