//! The laws of the codec: what holds of decoding and encoding taken
//! together, for every stream and every run of chunks.

use crate::chunk::ChunkModel;
use crate::crc::crc32;
use crate::endian::be_bytes;
use crate::error::PngError;
use crate::framing::{
    lemma_parse_chunk_of_record, lemma_parse_chunks_errors, lemma_parse_chunks_of_records,
    lemma_parse_chunks_reads_records_only, lemma_parse_chunks_rejects_changed_byte,
    lemma_parsed_chunks, lemma_parsed_record_place, record_start, rejection,
};
use crate::png::{
    chunk_bytes, chunks_bytes, has_signature, parse_chunk, parse_stream, record_len, signature,
    stream_bytes, well_formed_chunks,
};
use crate::text::bytes_of;
use vstd::prelude::*;

verus! {

/// Whether `s` is a PNG stream and nothing more: it decodes, and it ends
/// with its `IEND` record.
pub open spec fn is_png_stream(s: Seq<u8>) -> bool {
    &&& parse_stream(s) is Ok
    &&& s.len() == stream_bytes(parse_stream(s)->Ok_0).len()
}

/// Encoding undoes decoding. The chunks that a stream decodes into can all
/// be encoded, and encoding them gives back the stream, byte for byte, up to
/// the end of its `IEND` record: the whole stream where nothing follows that
/// record.
pub proof fn lemma_encode_after_decode(s: Seq<u8>)
    requires
        parse_stream(s) is Ok,
    ensures
        ({
            let cs = parse_stream(s)->Ok_0;
            &&& well_formed_chunks(cs)
            &&& stream_bytes(cs).len() <= s.len()
            &&& stream_bytes(cs) == s.take(stream_bytes(cs).len() as int)
            &&& is_png_stream(s) ==> stream_bytes(cs) == s
        }),
{
    let cs = parse_stream(s)->Ok_0;
    lemma_parsed_chunks(s.skip(8));
    let m = chunks_bytes(cs).len() as int;
    assert(s.skip(8).take(m) =~= s.subrange(8, 8 + m));
    assert(s.take(8) + s.subrange(8, 8 + m) =~= s.take(8 + m));
    assert(s.take(s.len() as int) =~= s);
}

/// Decoding undoes encoding. The stream written for well-formed chunks
/// decodes into those chunks, whatever follows it.
pub proof fn lemma_decode_after_encode(cs: Seq<ChunkModel>, tail: Seq<u8>)
    requires
        well_formed_chunks(cs),
    ensures
        parse_stream(stream_bytes(cs) + tail) == Ok::<Seq<ChunkModel>, PngError>(cs),
{
    let whole = stream_bytes(cs) + tail;
    lemma_parse_chunks_of_records(cs, tail);
    assert(whole.take(8) =~= signature());
    assert(whole.skip(8) =~= chunks_bytes(cs) + tail);
}

/// `s` with bit `bit` of the byte at `i` flipped.
pub open spec fn flip_bit(s: Seq<u8>, i: int, bit: u8) -> Seq<u8> {
    s.update(i, s[i] ^ (1u8 << bit))
}

/// No flipped bit gets past the checksum. Take a stream that decodes, and
/// flip one bit in the type, the payload or the stored checksum of one of its
/// records. The stream no longer decodes: it fails with `ChecksumMismatch`,
/// except where the bit was flipped in the type and left four bytes that are
/// no longer text, which fails with `InvalidChunkType`.
pub proof fn lemma_decode_rejects_flipped_bit(s: Seq<u8>, j: int, i: int, bit: u8)
    requires
        parse_stream(s) is Ok,
        0 <= j < parse_stream(s)->Ok_0.len(),
        8 + record_start(parse_stream(s)->Ok_0, j) + 4 <= i < 8 + record_start(
            parse_stream(s)->Ok_0,
            j,
        ) + record_len(parse_stream(s)->Ok_0[j]),
        bit < 8,
    ensures
        ({
            let at = 8 + record_start(parse_stream(s)->Ok_0, j);
            let flipped = flip_bit(s, i, bit);
            &&& parse_stream(flipped) == Err::<Seq<ChunkModel>, PngError>(
                rejection(flipped.subrange(at + 4, at + 8)),
            )
            &&& i >= at + 8 ==> parse_stream(flipped) == Err::<Seq<ChunkModel>, PngError>(
                PngError::ChecksumMismatch,
            )
        }),
{
    let cs = parse_stream(s)->Ok_0;
    let at = 8 + record_start(cs, j);
    let old_byte = s[i];
    let new_byte = old_byte ^ (1u8 << bit);
    assert(new_byte != old_byte) by (bit_vector)
        requires
            new_byte == old_byte ^ (1u8 << bit),
            bit < 8,
    ;
    let flipped = flip_bit(s, i, bit);
    lemma_parsed_record_place(s.skip(8), j);
    assert(flipped.take(8) == s.take(8)) by {
        assert(flipped.take(8) =~= s.take(8));
    }
    assert(flipped.skip(8) == s.skip(8).update(i - 8, new_byte)) by {
        assert(flipped.skip(8) =~= s.skip(8).update(i - 8, new_byte));
    }
    lemma_parse_chunks_rejects_changed_byte(s.skip(8), j, i - 8, new_byte);
    assert(flipped.skip(8).subrange(at - 8 + 4, at - 8 + 8) == flipped.subrange(at + 4, at + 8))
        by {
        assert(flipped.skip(8).subrange(at - 8 + 4, at - 8 + 8) =~= flipped.subrange(
            at + 4,
            at + 8,
        ));
    }
    if i >= at + 8 {
        assert(flipped.subrange(at + 4, at + 8) == s.skip(8).subrange(at - 8 + 4, at - 8 + 8)) by {
            assert(flipped.subrange(at + 4, at + 8) =~= s.skip(8).subrange(
                at - 8 + 4,
                at - 8 + 8,
            ));
        }
    }
}

/// A stream fails with `MalformedSignature` exactly when it does not start
/// with the signature, whatever follows.
pub proof fn lemma_signature_gate(s: Seq<u8>)
    ensures
        parse_stream(s) == Err::<Seq<ChunkModel>, PngError>(PngError::MalformedSignature)
            <==> !has_signature(s),
{
    lemma_parse_chunks_errors(s.skip(8));
}

/// Decoding a stream looks at no byte after the `IEND` record: a stream that
/// agrees with a decodable one up to the end of that record decodes into the
/// same chunks, whatever follows.
pub proof fn lemma_decode_ignores_trailing_bytes(s: Seq<u8>, t: Seq<u8>)
    requires
        parse_stream(s) is Ok,
        t.len() >= stream_bytes(parse_stream(s)->Ok_0).len(),
        t.take(stream_bytes(parse_stream(s)->Ok_0).len() as int) == s.take(
            stream_bytes(parse_stream(s)->Ok_0).len() as int,
        ),
    ensures
        parse_stream(t) == parse_stream(s),
{
    let cs = parse_stream(s)->Ok_0;
    let m = chunks_bytes(cs).len() as int;
    lemma_parsed_chunks(s.skip(8));
    assert forall|k: int| 0 <= k < 8 + m implies t[k] == s[k] by {
        assert(t.take(8 + m)[k] == s.take(8 + m)[k]);
    }
    assert(t.take(8) =~= s.take(8));
    assert(t.skip(8).take(m) =~= s.skip(8).take(m));
    lemma_parse_chunks_reads_records_only(s.skip(8), t.skip(8));
}

/// A chunk without payload takes up twelve bytes, its checksum covers the
/// four type bytes and nothing else, and those twelve bytes decode into the
/// chunk again.
pub proof fn lemma_empty_chunk(kind: Seq<char>, tail: Seq<u8>)
    requires
        bytes_of(kind).len() == 4,
    ensures
        ({
            let c = ChunkModel {
                kind,
                length: 0,
                data: Seq::empty(),
                crc: crc32(bytes_of(kind)),
            };
            &&& c.valid()
            &&& chunk_bytes(c) == be_bytes(0) + bytes_of(kind) + be_bytes(
                crc32(bytes_of(kind)),
            )
            &&& chunk_bytes(c).len() == 12
            &&& parse_chunk(chunk_bytes(c) + tail) == Ok::<ChunkModel, PngError>(c)
        }),
{
    let c = ChunkModel { kind, length: 0, data: Seq::empty(), crc: crc32(bytes_of(kind)) };
    assert(c.kind_bytes() + c.data =~= bytes_of(kind));
    lemma_parse_chunk_of_record(c, tail);
    assert(chunk_bytes(c) =~= be_bytes(0) + bytes_of(kind) + be_bytes(crc32(bytes_of(kind))));
}

} // verus!
