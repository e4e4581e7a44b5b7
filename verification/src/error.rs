//! The ways in which decoding, encoding or building a chunk can fail.

use vstd::prelude::*;

verus! {

/// The reason an operation of this library gave up. Every failure is final
/// for the call that reports it: nothing is retried and no partial result is
/// handed back.
#[derive(Clone, Copy, Debug, PartialEq, Eq, Structural)]
pub enum PngError {
    /// The first eight bytes are missing or are not the PNG signature.
    MalformedSignature,
    /// The stream ended before a length, type, payload or checksum was
    /// complete.
    ShortRead,
    /// The four type bytes of a record are not valid UTF-8, or the type of a
    /// chunk to be written is not exactly four bytes long.
    InvalidChunkType,
    /// The checksum computed over a record's type and payload is not the one
    /// stored after them.
    ChecksumMismatch,
    /// A keyword or text cannot go into a textual chunk.
    InvalidTextMetadata,
    /// The sink that encoded bytes were written to refused them.
    WriteFailure,
}

} // verus!
