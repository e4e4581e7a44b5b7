//! A codec for the PNG container format.
//!
//! [`png::Png::decode`] reads a byte stream into its chunks and checks the
//! checksum of each; [`png::Png::encode`] writes chunks back into a byte
//! stream; [`chunk::Chunk::new_text`] builds a textual chunk. The codec
//! frames chunks and leaves what they hold alone.
//!
//! What a stream means is laid down in [`png`] as functions on sequences of
//! bytes, and the checksum in [`crc`]; [`laws`] holds what is proved of the
//! two directions together.

pub mod chunk;
pub mod crc;
pub mod endian;
pub mod error;
pub mod framing;
pub mod laws;
pub mod png;
pub mod text;
