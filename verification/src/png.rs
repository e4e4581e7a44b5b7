//! Reading a PNG stream into chunks and writing chunks back into a stream.
//!
//! A stream is the eight signature bytes followed by chunk records. A record
//! is a big-endian 32-bit payload length, four type bytes, the payload, and
//! the big-endian CRC-32 of type and payload. The stream ends with the record
//! whose type is `IEND`.

use crate::chunk::{length_field, wire_length, Chunk, ChunkModel};
use crate::crc::{crc32, CRC};
use crate::endian::{be_bytes, be_value, u32_from_be, u32_to_be};
use crate::error::PngError;
use crate::framing::{
    lemma_chunks_bytes_concat, lemma_emitted_chunks_concat, lemma_parsed_chunk, lemma_parsed_chunks,
};
use crate::laws::lemma_signature_gate;
use crate::text::{bytes_of, is_text, lemma_text_of_bytes_of, text_of};
use vstd::prelude::*;
use vstd::slice::slice_to_vec;
use vstd::utf8::*;

verus! {

/// The eight bytes that every PNG stream starts with.
pub open spec fn signature() -> Seq<u8> {
    seq![137u8, 80, 78, 71, 13, 10, 26, 10]
}

/// Whether `s` starts with the PNG signature.
pub open spec fn has_signature(s: Seq<u8>) -> bool {
    s.len() >= 8 && s.take(8) == signature()
}

/// The chunk whose record stands at the start of `s`, or the reason why none
/// does. Bytes after the record do not matter.
///
/// The definition is opaque: `reveal(parse_chunk)` brings it into a proof.
#[verifier::opaque]
pub open spec fn parse_chunk(s: Seq<u8>) -> Result<ChunkModel, PngError> {
    if s.len() < 8 {
        Err(PngError::ShortRead)
    } else if !is_text(s.subrange(4, 8)) {
        Err(PngError::InvalidChunkType)
    } else {
        let length = be_value(s.subrange(0, 4));
        if s.len() < 12 + length {
            Err(PngError::ShortRead)
        } else {
            let crc = be_value(s.subrange(8 + length, 12 + length));
            if crc != crc32(s.subrange(4, 8 + length)) {
                Err(PngError::ChecksumMismatch)
            } else {
                Ok(
                    ChunkModel {
                        kind: text_of(s.subrange(4, 8)),
                        length,
                        data: s.subrange(8, 8 + length),
                        crc,
                    },
                )
            }
        }
    }
}

/// The number of bytes that the record of `c` takes up in a stream.
pub open spec fn record_len(c: ChunkModel) -> nat {
    12 + c.data.len()
}

/// The outcome `r` of decoding further chunks, seen from before the chunks
/// `head` that were decoded ahead of them.
pub open spec fn preceded_by(
    head: Seq<ChunkModel>,
    r: Result<Seq<ChunkModel>, PngError>,
) -> Result<Seq<ChunkModel>, PngError> {
    match r {
        Ok(rest) => Ok(head + rest),
        Err(e) => Err(e),
    }
}

/// The chunks whose records follow one another from the start of `s`, up to
/// and including the first `IEND` chunk, or the reason why decoding stops
/// before it has seen one.
pub open spec fn parse_chunks(s: Seq<u8>) -> Result<Seq<ChunkModel>, PngError>
    decreases s.len(),
    via parse_chunks_decreases
{
    match parse_chunk(s) {
        Err(e) => Err(e),
        Ok(c) => if c.is_end() {
            Ok(seq![c])
        } else {
            preceded_by(seq![c], parse_chunks(s.skip(record_len(c) as int)))
        },
    }
}

#[via_fn]
proof fn parse_chunks_decreases(s: Seq<u8>) {
    reveal(parse_chunk);
}

/// Whether `cs` is a run of valid chunks with types of four bytes, of which
/// the last, and no other, is the `IEND` chunk.
pub open spec fn well_formed_chunks(cs: Seq<ChunkModel>) -> bool {
    &&& cs.len() >= 1
    &&& cs.last().is_end()
    &&& forall|i: int| 0 <= i < cs.len() - 1 ==> !(#[trigger] cs[i]).is_end()
    &&& forall|i: int| 0 <= i < cs.len() ==> (#[trigger] cs[i]).valid()
    &&& all_four_byte_kinds(cs)
}

/// The chunks of the PNG stream `s`, or the reason why it cannot be decoded.
pub open spec fn parse_stream(s: Seq<u8>) -> Result<Seq<ChunkModel>, PngError> {
    if has_signature(s) {
        parse_chunks(s.skip(8))
    } else {
        Err(PngError::MalformedSignature)
    }
}

/// The record that stands for `c` in a stream. Length and checksum are
/// worked out from type and payload; the chunk's own `length` and `crc` play
/// no part.
pub open spec fn chunk_bytes(c: ChunkModel) -> Seq<u8> {
    be_bytes(wire_length(c.data.len())) + c.kind_bytes() + c.data + be_bytes(c.checksum())
}

/// The records of `cs`, one after the other.
pub open spec fn chunks_bytes(cs: Seq<ChunkModel>) -> Seq<u8>
    decreases cs.len(),
{
    if cs.len() == 0 {
        Seq::empty()
    } else {
        chunk_bytes(cs[0]) + chunks_bytes(cs.skip(1))
    }
}

/// The PNG stream that holds the chunks `cs`.
pub open spec fn stream_bytes(cs: Seq<ChunkModel>) -> Seq<u8> {
    signature() + chunks_bytes(cs)
}

/// Whether every chunk of `cs` has a type of exactly four bytes.
pub open spec fn all_four_byte_kinds(cs: Seq<ChunkModel>) -> bool {
    forall|i: int| 0 <= i < cs.len() ==> (#[trigger] cs[i]).has_four_byte_kind()
}

/// What the encoder writes for `cs` after the signature: the records in
/// order, and, where a chunk has a type that is not four bytes long, of that
/// chunk the length field only and nothing after it.
pub open spec fn emitted_chunks(cs: Seq<ChunkModel>) -> Seq<u8>
    decreases cs.len(),
{
    if cs.len() == 0 {
        Seq::empty()
    } else if !cs[0].has_four_byte_kind() {
        be_bytes(wire_length(cs[0].data.len()))
    } else {
        chunk_bytes(cs[0]) + emitted_chunks(cs.skip(1))
    }
}

/// A decoded chunk or an error, with the chunk taken as its model.
pub open spec fn chunk_outcome(r: Result<Chunk, PngError>) -> Result<ChunkModel, PngError> {
    match r {
        Ok(c) => Ok(c@),
        Err(e) => Err(e),
    }
}

/// Decoded chunks or an error, with the chunks taken as their models.
pub open spec fn chunks_outcome(r: Result<Vec<Chunk>, PngError>) -> Result<
    Seq<ChunkModel>,
    PngError,
> {
    match r {
        Ok(v) => Ok(v.deep_view()),
        Err(e) => Err(e),
    }
}

/// [`String::from_utf8`] with the details of a failure dropped.
///
/// Taken on trust from the standard library's documentation, not proved: the
/// string exists exactly when the bytes are valid UTF-8, and is then made of
/// the bytes it was given.
#[verifier::external_body]
fn string_from_utf8(bytes: Vec<u8>) -> (r: Option<String>)
    ensures
        r is Some <==> valid_utf8(bytes@),
        r matches Some(s) ==> encode_utf8(s@) == bytes@,
{
    String::from_utf8(bytes).ok()
}

/// The codec itself: a namespace for decoding and encoding.
pub struct Png {}

impl Png {
    /// The eight bytes that every PNG stream starts with.
    pub const PNG_SIGNATURE: [u8; 8] = [137, 80, 78, 71, 13, 10, 26, 10];

    /// Checks that `input` starts with the PNG signature.
    pub fn decode_signature(input: &[u8]) -> (r: Result<(), PngError>)
        ensures
            r == (if has_signature(input@) {
                Ok::<(), PngError>(())
            } else {
                Err(PngError::MalformedSignature)
            }),
    {
        if input.len() < 8 {
            return Err(PngError::MalformedSignature);
        }
        let mut i: usize = 0;
        while i < 8
            invariant
                i <= 8 <= input.len(),
                forall|j: int| 0 <= j < i ==> input@[j] == signature()[j],
            decreases 8 - i,
        {
            if input[i] != Png::PNG_SIGNATURE[i] {
                assert(input@.take(8)[i as int] != signature()[i as int]);
                return Err(PngError::MalformedSignature);
            }
            i += 1;
        }
        assert(input@.take(8) =~= signature());
        Ok(())
    }

    /// Decodes the chunk record at the start of `input`.
    ///
    /// The record's header must be complete, its type must be valid UTF-8,
    /// its payload and checksum must be complete, and the checksum must be
    /// that of type and payload: the first of these that fails decides the
    /// error. Bytes after the record are not looked at.
    pub fn decode_chunk(input: &[u8]) -> (r: Result<Chunk, PngError>)
        ensures
            chunk_outcome(r) == parse_chunk(input@),
            r matches Ok(chunk) ==> chunk@.valid() && chunk@.has_four_byte_kind(),
    {
        proof {
            reveal(parse_chunk);
            if parse_chunk(input@) is Ok {
                lemma_parsed_chunk(input@);
            }
        }
        let mut crc = CRC::new();
        if input.len() < 8 {
            return Err(PngError::ShortRead);
        }
        let chunk_length: u32 = u32_from_be(&input[0..4]);

        let kind_bytes: &[u8] = &input[4..8];
        crc.update(kind_bytes);
        proof {
            reveal(is_text);
            reveal(bytes_of);
        }
        let chunk_kind: String = match string_from_utf8(slice_to_vec(kind_bytes)) {
            Some(kind) => kind,
            None => {
                return Err(PngError::InvalidChunkType);
            },
        };

        let length: usize = chunk_length as usize;
        let mut chunk_data: Vec<u8> = Vec::new();
        if chunk_length > 0 {
            if input.len() - 8 < length {
                return Err(PngError::ShortRead);
            }
            chunk_data = slice_to_vec(&input[8..8 + length]);
            crc.update(chunk_data.as_slice());
        }
        if input.len() - 8 - length < 4 {
            return Err(PngError::ShortRead);
        }
        let chunk_crc: u32 = u32_from_be(&input[8 + length..12 + length]);

        proof {
            assert(crc@ =~= input@.subrange(4, 8 + length));
            assert(chunk_data@ =~= input@.subrange(8, 8 + length));
            lemma_text_of_bytes_of(chunk_kind@);
        }
        if chunk_crc == crc.value() {
            Ok(Chunk { length: chunk_length, data: chunk_data, kind: chunk_kind, crc: chunk_crc })
        } else {
            Err(PngError::ChecksumMismatch)
        }
    }

    /// Decodes chunk records from the start of `input`, one after the other,
    /// until it has decoded an `IEND` chunk or a record fails to decode.
    /// Bytes after the `IEND` record are not looked at.
    pub fn decode_all_chunks(input: &[u8]) -> (r: Result<Vec<Chunk>, PngError>)
        ensures
            chunks_outcome(r) == parse_chunks(input@),
            r matches Ok(chunks) ==> well_formed_chunks(chunks.deep_view()),
    {
        proof {
            if parse_chunks(input@) is Ok {
                lemma_parsed_chunks(input@);
            }
        }
        let mut result: Vec<Chunk> = Vec::new();
        let mut pos: usize = 0;
        assert(input@.skip(0) =~= input@);
        assert(result.deep_view() + parse_chunks(input@)->Ok_0 =~= parse_chunks(input@)->Ok_0);
        loop
            invariant
                pos <= input.len(),
                parse_chunks(input@) is Ok ==> well_formed_chunks(parse_chunks(input@)->Ok_0),
                parse_chunks(input@) == preceded_by(
                    result.deep_view(),
                    parse_chunks(input@.skip(pos as int)),
                ),
            decreases input.len() - pos,
        {
            let ghost rest = input@.skip(pos as int);
            let ghost before = result.deep_view();
            assert(input@.subrange(pos as int, input.len() as int) =~= rest);
            let chunk: Chunk = match Png::decode_chunk(&input[pos..input.len()]) {
                Ok(chunk) => chunk,
                Err(e) => {
                    return Err(e);
                },
            };
            proof {
                lemma_parsed_chunk(rest);
            }
            let step: usize = 12 + chunk.data.len();
            let ended: bool = chunk.is_end();
            let ghost c = chunk@;
            result.push(chunk);
            assert(result.deep_view() =~= before + seq![c]);
            if ended {
                return Ok(result);
            }
            proof {
                let tail = parse_chunks(rest.skip(step as int));
                assert(rest.skip(step as int) =~= input@.skip(pos + step));
                if tail is Ok {
                    assert(before + (seq![c] + tail->Ok_0) =~= (before + seq![c]) + tail->Ok_0);
                }
            }
            pos = pos + step;
        }
    }

    /// Decodes the PNG stream `input` into its chunks.
    ///
    /// The stream must start with the signature, and chunk records must
    /// follow one another up to an `IEND` record; whatever follows that
    /// record is not looked at. The first record that fails to decode fails
    /// the whole call.
    pub fn decode(input: &[u8]) -> (r: Result<Vec<Chunk>, PngError>)
        ensures
            chunks_outcome(r) == parse_stream(input@),
            r matches Ok(chunks) ==> well_formed_chunks(chunks.deep_view()),
            (r matches Err(e) && e == PngError::MalformedSignature) <==> !has_signature(input@),
    {
        proof {
            lemma_signature_gate(input@);
        }
        match Png::decode_signature(input) {
            Ok(()) => {},
            Err(e) => {
                return Err(e);
            },
        }
        assert(input@.subrange(8, input.len() as int) =~= input@.skip(8));
        Png::decode_all_chunks(&input[8..input.len()])
    }

    /// Appends to `output` the PNG stream that holds `chunks`.
    ///
    /// Each record's length and checksum are worked out from the chunk's type
    /// and payload; its `length` and `crc` fields are not read. A chunk whose
    /// type is not exactly four bytes long fails the call, after the records
    /// before it and its own length field have been written.
    pub fn encode(output: &mut Vec<u8>, chunks: &Vec<Chunk>) -> (r: Result<(), PngError>)
        ensures
            r == (if all_four_byte_kinds(chunks.deep_view()) {
                Ok::<(), PngError>(())
            } else {
                Err(PngError::InvalidChunkType)
            }),
            final(output)@ == old(output)@ + signature() + emitted_chunks(chunks.deep_view()),
            r is Ok ==> final(output)@ == old(output)@ + stream_bytes(chunks.deep_view()),
    {
        let ghost cs = chunks.deep_view();
        let ghost start = output@ + signature();
        output.extend_from_slice(&Png::PNG_SIGNATURE);
        let mut i: usize = 0;
        assert(output@ =~= start + chunks_bytes(cs.take(0)));
        while i < chunks.len()
            invariant
                i <= chunks.len(),
                cs == chunks.deep_view(),
                start == old(output)@ + signature(),
                all_four_byte_kinds(cs.take(i as int)),
                output@ == start + chunks_bytes(cs.take(i as int)),
            decreases chunks.len() - i,
        {
            let c: &Chunk = &chunks[i];
            let ghost done = cs.take(i as int);
            assert(cs[i as int] == c@);
            let mut crc = CRC::new();

            let length: [u8; 4] = u32_to_be(length_field(c.data.len()));
            output.extend_from_slice(&length);

            let kind: &[u8] = c.kind.as_str().as_bytes();
            proof {
                reveal(bytes_of);
            }
            if kind.len() != 4 {
                proof {
                    assert(cs =~= done + cs.skip(i as int));
                    lemma_emitted_chunks_concat(done, cs.skip(i as int));
                    assert(cs.skip(i as int)[0] == c@);
                    assert(output@ =~= start + emitted_chunks(cs));
                }
                return Err(PngError::InvalidChunkType);
            }
            crc.update(kind);
            output.extend_from_slice(kind);

            if !c.data.is_empty() {
                crc.update(c.data.as_slice());
                output.extend_from_slice(c.data.as_slice());
            }
            let checksum: [u8; 4] = u32_to_be(crc.value());
            output.extend_from_slice(&checksum);

            proof {
                assert(crc@ =~= c@.kind_bytes() + c@.data);
                assert(cs.take(i + 1) =~= done + seq![c@]);
                lemma_chunks_bytes_concat(done, seq![c@]);
                assert(chunks_bytes(seq![c@]) =~= chunk_bytes(c@)) by {
                    reveal_with_fuel(chunks_bytes, 2);
                }
                assert(output@ =~= start + chunks_bytes(done) + chunk_bytes(c@));
            }
            i += 1;
        }
        proof {
            assert(cs.take(i as int) =~= cs);
            assert(cs =~= cs + Seq::<ChunkModel>::empty());
            lemma_emitted_chunks_concat(cs, Seq::<ChunkModel>::empty());
            assert(chunks_bytes(cs) + emitted_chunks(Seq::<ChunkModel>::empty()) =~= chunks_bytes(cs));
            assert(output@ =~= old(output)@ + signature() + emitted_chunks(cs));
        }
        Ok(())
    }
}

} // verus!
