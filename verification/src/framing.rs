//! What holds of single records and of runs of records: the facts that the
//! laws of the codec are built from.

use crate::chunk::{wire_length, ChunkModel};
use crate::crc::lemma_crc32_detects_changed_byte;
use crate::endian::{be_bytes, lemma_be_bytes_of_value, lemma_be_value_of_bytes};
use crate::error::PngError;
use crate::png::{
    all_four_byte_kinds, chunk_bytes, chunks_bytes, emitted_chunks, parse_chunk, parse_chunks,
    record_len, well_formed_chunks,
};
use crate::text::{is_text, lemma_bytes_of_text_of, lemma_text_of_bytes_of};
use vstd::prelude::*;

verus! {

/// A chunk that decodes from the start of `s` is valid, has a type of four
/// bytes, and its record is the bytes it was decoded from.
pub proof fn lemma_parsed_chunk(s: Seq<u8>)
    requires
        parse_chunk(s) is Ok,
    ensures
        ({
            let c = parse_chunk(s)->Ok_0;
            &&& c.valid()
            &&& c.has_four_byte_kind()
            &&& c.kind_bytes() == s.subrange(4, 8)
            &&& is_text(s.subrange(4, 8))
            &&& record_len(c) <= s.len()
            &&& chunk_bytes(c).len() == record_len(c)
            &&& chunk_bytes(c) == s.take(record_len(c) as int)
        }),
{
    reveal(parse_chunk);
    let c = parse_chunk(s)->Ok_0;
    let n = c.length as int;
    lemma_bytes_of_text_of(s.subrange(4, 8));
    assert(c.kind_bytes() + c.data =~= s.subrange(4, 8 + n));
    lemma_be_bytes_of_value(s.subrange(0, 4));
    lemma_be_bytes_of_value(s.subrange(8 + n, 12 + n));
    assert(wire_length(c.data.len()) == c.length);
    assert(chunk_bytes(c) =~= s.take(12 + n));
}

/// Decoding a chunk looks at the bytes of its record and at no others.
pub proof fn lemma_parse_chunk_reads_record_only(s: Seq<u8>, t: Seq<u8>)
    requires
        parse_chunk(s) is Ok,
        t.len() >= record_len(parse_chunk(s)->Ok_0),
        t.take(record_len(parse_chunk(s)->Ok_0) as int) == s.take(
            record_len(parse_chunk(s)->Ok_0) as int,
        ),
    ensures
        parse_chunk(t) == parse_chunk(s),
{
    reveal(parse_chunk);
    let c = parse_chunk(s)->Ok_0;
    let n = c.length as int;
    let m = record_len(c) as int;
    assert forall|k: int| 0 <= k < m implies t[k] == s[k] by {
        assert(t.take(m)[k] == s.take(m)[k]);
    }
    assert(t.subrange(4, 8) =~= s.subrange(4, 8));
    assert(t.subrange(0, 4) =~= s.subrange(0, 4));
    assert(t.subrange(4, 8 + n) =~= s.subrange(4, 8 + n));
    assert(t.subrange(8, 8 + n) =~= s.subrange(8, 8 + n));
    assert(t.subrange(8 + n, 12 + n) =~= s.subrange(8 + n, 12 + n));
}

/// What a record decodes into: the chunk it was written for, with the
/// length and checksum that belong to its type and payload.
pub open spec fn as_written(c: ChunkModel) -> ChunkModel {
    ChunkModel { kind: c.kind, length: wire_length(c.data.len()), data: c.data, crc: c.checksum() }
}

/// The record of a chunk decodes into that chunk, whatever follows the
/// record, given a type of four bytes and a payload whose length fits the
/// length field.
pub proof fn lemma_parse_chunk_of_record(c: ChunkModel, tail: Seq<u8>)
    requires
        c.has_four_byte_kind(),
        c.data.len() <= u32::MAX,
    ensures
        chunk_bytes(c).len() == record_len(c),
        parse_chunk(chunk_bytes(c) + tail) == Ok::<ChunkModel, PngError>(as_written(c)),
        c.valid() ==> as_written(c) == c,
{
    reveal(parse_chunk);
    let s = chunk_bytes(c) + tail;
    let n = c.data.len() as int;
    let length = wire_length(c.data.len());
    lemma_be_value_of_bytes(length);
    lemma_be_value_of_bytes(c.checksum());
    lemma_text_of_bytes_of(c.kind);
    assert(s.subrange(0, 4) =~= be_bytes(length));
    assert(s.subrange(4, 8) =~= c.kind_bytes());
    assert(s.subrange(8, 8 + n) =~= c.data);
    assert(s.subrange(4, 8 + n) =~= c.kind_bytes() + c.data);
    assert(s.subrange(8 + n, 12 + n) =~= be_bytes(c.checksum()));
}

/// How decoding fails once a byte of a record's type, payload or checksum
/// has been changed: with `InvalidChunkType` where the type, now the four
/// bytes `kind`, is no longer text, and with `ChecksumMismatch`
/// everywhere else.
pub open spec fn rejection(kind: Seq<u8>) -> PngError {
    if is_text(kind) {
        PngError::ChecksumMismatch
    } else {
        PngError::InvalidChunkType
    }
}

/// A record in which one byte of the type, the payload or the checksum has
/// been changed does not decode.
pub proof fn lemma_parse_chunk_rejects_changed_byte(s: Seq<u8>, i: int, b: u8)
    requires
        parse_chunk(s) is Ok,
        4 <= i < record_len(parse_chunk(s)->Ok_0),
        b != s[i],
    ensures
        parse_chunk(s.update(i, b)) == Err::<ChunkModel, PngError>(
            rejection(s.update(i, b).subrange(4, 8)),
        ),
{
    reveal(parse_chunk);
    let c = parse_chunk(s)->Ok_0;
    let n = c.length as int;
    let t = s.update(i, b);
    assert(t.subrange(0, 4) =~= s.subrange(0, 4));
    if i < 8 + n {
        assert(t.subrange(8 + n, 12 + n) =~= s.subrange(8 + n, 12 + n));
        if i >= 8 {
            assert(t.subrange(4, 8) =~= s.subrange(4, 8));
        }
        lemma_crc32_detects_changed_byte(s.subrange(4, 8 + n), t.subrange(4, 8 + n), i - 4);
    } else {
        assert(t.subrange(4, 8) =~= s.subrange(4, 8));
        assert(t.subrange(4, 8 + n) =~= s.subrange(4, 8 + n));
        let stored = s.subrange(8 + n, 12 + n);
        let changed = t.subrange(8 + n, 12 + n);
        assert(changed[i - 8 - n] != stored[i - 8 - n]);
        lemma_be_bytes_of_value(stored);
        lemma_be_bytes_of_value(changed);
    }
}

/// The records of two runs of chunks, one after the other, are the records
/// of the runs joined.
pub proof fn lemma_chunks_bytes_concat(a: Seq<ChunkModel>, b: Seq<ChunkModel>)
    ensures
        chunks_bytes(a + b) == chunks_bytes(a) + chunks_bytes(b),
    decreases a.len(),
{
    if a.len() == 0 {
        assert(a + b =~= b);
        assert(chunks_bytes(a) + chunks_bytes(b) =~= chunks_bytes(b));
    } else {
        lemma_chunks_bytes_concat(a.skip(1), b);
        assert((a + b).skip(1) =~= a.skip(1) + b);
        assert(chunk_bytes(a[0]) + (chunks_bytes(a.skip(1)) + chunks_bytes(b)) =~= (chunk_bytes(
            a[0],
        ) + chunks_bytes(a.skip(1))) + chunks_bytes(b));
    }
}

/// As long as the types are four bytes long the encoder writes whole
/// records.
pub proof fn lemma_emitted_chunks_concat(a: Seq<ChunkModel>, b: Seq<ChunkModel>)
    requires
        all_four_byte_kinds(a),
    ensures
        emitted_chunks(a + b) == chunks_bytes(a) + emitted_chunks(b),
    decreases a.len(),
{
    if a.len() == 0 {
        assert(a + b =~= b);
        assert(chunks_bytes(a) + emitted_chunks(b) =~= emitted_chunks(b));
    } else {
        assert(a[0].has_four_byte_kind());
        assert forall|i: int| 0 <= i < a.skip(1).len() implies (#[trigger] a.skip(
            1,
        )[i]).has_four_byte_kind() by {
            assert(a[i + 1].has_four_byte_kind());
        }
        lemma_emitted_chunks_concat(a.skip(1), b);
        assert((a + b).skip(1) =~= a.skip(1) + b);
        assert(chunk_bytes(a[0]) + (chunks_bytes(a.skip(1)) + emitted_chunks(b)) =~= (chunk_bytes(
            a[0],
        ) + chunks_bytes(a.skip(1))) + emitted_chunks(b));
    }
}

/// The place, counted from the first record, at which the record of chunk
/// `j` of `cs` starts.
pub open spec fn record_start(cs: Seq<ChunkModel>, j: int) -> int {
    chunks_bytes(cs.take(j)).len() as int
}

/// How chunks that decode from the start of `s` are made up: of the chunk
/// that decodes there and, unless that is the `IEND` chunk, of the chunks
/// that decode where its record ends.
pub proof fn lemma_parse_chunks_unfolds(s: Seq<u8>)
    requires
        parse_chunks(s) is Ok,
    ensures
        parse_chunk(s) is Ok,
        ({
            let cs = parse_chunks(s)->Ok_0;
            let c = parse_chunk(s)->Ok_0;
            let rest = parse_chunks(s.skip(record_len(c) as int));
            &&& cs.len() >= 1
            &&& cs[0] == c
            &&& record_len(c) <= s.len()
            &&& record_start(cs, 0) == 0
            &&& c.is_end() ==> cs.len() == 1
            &&& !c.is_end() ==> {
                &&& rest is Ok
                &&& cs.len() == 1 + rest->Ok_0.len()
                &&& forall|j: int|
                    1 <= j < cs.len() ==> #[trigger] cs[j] == rest->Ok_0[j - 1] && record_start(
                        cs,
                        j,
                    ) == record_len(c) + record_start(rest->Ok_0, j - 1)
            }
        }),
{
    let cs = parse_chunks(s)->Ok_0;
    let c = parse_chunk(s)->Ok_0;
    lemma_parsed_chunk(s);
    assert(cs.take(0) =~= Seq::<ChunkModel>::empty());
    if !c.is_end() {
        let rest = parse_chunks(s.skip(record_len(c) as int))->Ok_0;
        assert(cs =~= seq![c] + rest);
        assert forall|j: int| 1 <= j < cs.len() implies #[trigger] cs[j] == rest[j - 1]
            && record_start(cs, j) == record_len(c) + record_start(rest, j - 1) by {
            assert(cs.take(j) =~= seq![c] + rest.take(j - 1));
            lemma_chunks_bytes_concat(seq![c], rest.take(j - 1));
            assert(chunks_bytes(seq![c]) =~= chunk_bytes(c)) by {
                reveal_with_fuel(chunks_bytes, 2);
            }
        }
    }
}

/// Chunks that decode from the start of `s` are well formed, and their
/// records, one after the other, are the bytes they were decoded from.
pub proof fn lemma_parsed_chunks(s: Seq<u8>)
    requires
        parse_chunks(s) is Ok,
    ensures
        ({
            let cs = parse_chunks(s)->Ok_0;
            &&& well_formed_chunks(cs)
            &&& chunks_bytes(cs).len() <= s.len()
            &&& chunks_bytes(cs) == s.take(chunks_bytes(cs).len() as int)
        }),
    decreases s.len(),
{
    let cs = parse_chunks(s)->Ok_0;
    let c = parse_chunk(s)->Ok_0;
    let n = record_len(c) as int;
    lemma_parsed_chunk(s);
    if c.is_end() {
        assert(cs =~= seq![c]);
        assert(chunks_bytes(cs) =~= chunk_bytes(c)) by {
            reveal_with_fuel(chunks_bytes, 2);
        }
    } else {
        let rest = parse_chunks(s.skip(n))->Ok_0;
        lemma_parsed_chunks(s.skip(n));
        assert(cs =~= seq![c] + rest);
        assert(cs.skip(1) =~= rest);
        assert forall|i: int| 0 <= i < cs.len() - 1 implies !(#[trigger] cs[i]).is_end() by {
            if i > 0 {
                assert(cs[i] == rest[i - 1]);
            }
        }
        assert forall|i: int| 0 <= i < cs.len() implies (#[trigger] cs[i]).valid()
            && cs[i].has_four_byte_kind() by {
            if i > 0 {
                assert(cs[i] == rest[i - 1]);
            }
        }
        let m = chunks_bytes(rest).len() as int;
        assert(chunks_bytes(cs) =~= s.take(n + m)) by {
            assert(chunks_bytes(cs) == chunk_bytes(c) + chunks_bytes(rest));
            assert(s.skip(n).take(m) =~= s.subrange(n, n + m));
            assert(s.take(n) + s.subrange(n, n + m) =~= s.take(n + m));
        }
    }
}

/// Every record that decodes lies within the bytes it was decoded from, and
/// its type bytes are valid UTF-8.
pub proof fn lemma_parsed_record_place(s: Seq<u8>, j: int)
    requires
        parse_chunks(s) is Ok,
        0 <= j < parse_chunks(s)->Ok_0.len(),
    ensures
        ({
            let at = record_start(parse_chunks(s)->Ok_0, j);
            &&& 0 <= at
            &&& at + record_len(parse_chunks(s)->Ok_0[j]) <= s.len()
            &&& is_text(s.subrange(at + 4, at + 8))
        }),
    decreases j,
{
    let cs = parse_chunks(s)->Ok_0;
    let c = parse_chunk(s)->Ok_0;
    let n = record_len(c) as int;
    let at = record_start(cs, j);
    lemma_parse_chunks_unfolds(s);
    lemma_parsed_chunk(s);
    if j > 0 {
        assert(cs[j] == parse_chunks(s.skip(n))->Ok_0[j - 1]);
        lemma_parsed_record_place(s.skip(n), j - 1);
        assert(s.skip(n).subrange(at - n + 4, at - n + 8) == s.subrange(at + 4, at + 8)) by {
            assert(s.skip(n).subrange(at - n + 4, at - n + 8) =~= s.subrange(at + 4, at + 8));
        }
    }
}

/// Decoding chunks looks at no byte after the `IEND` record.
pub proof fn lemma_parse_chunks_reads_records_only(s: Seq<u8>, t: Seq<u8>)
    requires
        parse_chunks(s) is Ok,
        t.len() >= chunks_bytes(parse_chunks(s)->Ok_0).len(),
        t.take(chunks_bytes(parse_chunks(s)->Ok_0).len() as int) == s.take(
            chunks_bytes(parse_chunks(s)->Ok_0).len() as int,
        ),
    ensures
        parse_chunks(t) == parse_chunks(s),
    decreases s.len(),
{
    let cs = parse_chunks(s)->Ok_0;
    let c = parse_chunk(s)->Ok_0;
    let n = record_len(c) as int;
    let total = chunks_bytes(cs).len() as int;
    lemma_parsed_chunk(s);
    lemma_parsed_chunks(s);
    assert(n <= total) by {
        assert(cs[0] == c);
        assert(chunks_bytes(cs) == chunk_bytes(c) + chunks_bytes(cs.skip(1)));
    }
    assert forall|k: int| 0 <= k < total implies t[k] == s[k] by {
        assert(t.take(total)[k] == s.take(total)[k]);
    }
    assert(t.take(n) =~= s.take(n));
    lemma_parse_chunk_reads_record_only(s, t);
    if !c.is_end() {
        let rest = parse_chunks(s.skip(n))->Ok_0;
        assert(cs =~= seq![c] + rest);
        assert(cs.skip(1) =~= rest);
        let m = chunks_bytes(rest).len() as int;
        assert(total == n + m);
        assert(t.skip(n).take(m) =~= s.skip(n).take(m));
        lemma_parse_chunks_reads_records_only(s.skip(n), t.skip(n));
    }
}

/// The records written for well-formed chunks decode into those chunks,
/// whatever follows them.
pub proof fn lemma_parse_chunks_of_records(cs: Seq<ChunkModel>, tail: Seq<u8>)
    requires
        well_formed_chunks(cs),
    ensures
        parse_chunks(chunks_bytes(cs) + tail) == Ok::<Seq<ChunkModel>, PngError>(cs),
    decreases cs.len(),
{
    let c = cs[0];
    let rest = cs.skip(1);
    let s = chunks_bytes(cs) + tail;
    let behind = chunks_bytes(rest) + tail;
    assert(c.valid() && c.has_four_byte_kind());
    lemma_parse_chunk_of_record(c, behind);
    assert(s == chunk_bytes(c) + behind) by {
        assert(s =~= chunk_bytes(c) + behind);
    }
    assert(s.skip(record_len(c) as int) == behind) by {
        assert(s.skip(record_len(c) as int) =~= behind);
    }
    if cs.len() == 1 {
        assert(cs =~= seq![c]);
    } else {
        assert(well_formed_chunks(rest)) by {
            assert(rest.last() == cs.last());
            assert forall|i: int| 0 <= i < rest.len() implies (#[trigger] rest[i]).valid()
                && rest[i].has_four_byte_kind() && (i < rest.len() - 1 ==> !rest[i].is_end()) by {
                assert(rest[i] == cs[i + 1]);
            }
        }
        lemma_parse_chunks_of_records(rest, tail);
        assert(cs =~= seq![c] + rest);
    }
}

/// Decoding chunks fails for one of three reasons only.
pub proof fn lemma_parse_chunks_errors(s: Seq<u8>)
    ensures
        parse_chunks(s) matches Err(e) ==> e == PngError::ShortRead || e
            == PngError::InvalidChunkType || e == PngError::ChecksumMismatch,
    decreases s.len(),
{
    reveal(parse_chunk);
    if let Ok(c) = parse_chunk(s) {
        if !c.is_end() {
            lemma_parsed_chunk(s);
            lemma_parse_chunks_errors(s.skip(record_len(c) as int));
        }
    }
}

/// Decoding chunks fails as soon as decoding one of them does.
pub proof fn lemma_parse_chunks_fails_with_chunk(s: Seq<u8>, e: PngError)
    requires
        parse_chunk(s) == Err::<ChunkModel, PngError>(e),
    ensures
        parse_chunks(s) == Err::<Seq<ChunkModel>, PngError>(e),
{
}

/// Decoding chunks fails when, after a first chunk that is not the `IEND`
/// chunk, decoding the chunks behind it does.
pub proof fn lemma_parse_chunks_fails_with_rest(s: Seq<u8>, e: PngError)
    requires
        parse_chunk(s) is Ok,
        !parse_chunk(s)->Ok_0.is_end(),
        parse_chunks(s.skip(record_len(parse_chunk(s)->Ok_0) as int)) == Err::<
            Seq<ChunkModel>,
            PngError,
        >(e),
    ensures
        parse_chunks(s) == Err::<Seq<ChunkModel>, PngError>(e),
{
}

/// A change to a byte behind the first record leaves the chunk that decodes
/// from that record as it was.
pub proof fn lemma_change_behind_first_record(s: Seq<u8>, i: int, b: u8)
    requires
        parse_chunk(s) is Ok,
        record_len(parse_chunk(s)->Ok_0) <= i < s.len(),
    ensures
        parse_chunk(s.update(i, b)) == parse_chunk(s),
        s.update(i, b).skip(record_len(parse_chunk(s)->Ok_0) as int) == s.skip(
            record_len(parse_chunk(s)->Ok_0) as int,
        ).update(i - record_len(parse_chunk(s)->Ok_0), b),
{
    let n = record_len(parse_chunk(s)->Ok_0) as int;
    let t = s.update(i, b);
    assert(t.take(n) =~= s.take(n));
    lemma_parse_chunk_reads_record_only(s, t);
    assert(t.skip(n) =~= s.skip(n).update(i - n, b));
}

/// A change to a byte of the first record's type, payload or checksum makes
/// decoding fail at that record.
pub proof fn lemma_change_in_first_record(s: Seq<u8>, i: int, b: u8)
    requires
        parse_chunk(s) is Ok,
        4 <= i < record_len(parse_chunk(s)->Ok_0),
        b != s[i],
    ensures
        parse_chunks(s.update(i, b)) == Err::<Seq<ChunkModel>, PngError>(
            rejection(s.update(i, b).subrange(4, 8)),
        ),
{
    lemma_parse_chunk_rejects_changed_byte(s, i, b);
    lemma_parse_chunks_fails_with_chunk(s.update(i, b), rejection(s.update(i, b).subrange(4, 8)));
}

/// A change to a byte behind the first record that makes decoding fail
/// behind that record makes it fail as a whole.
pub proof fn lemma_change_in_later_record(s: Seq<u8>, i: int, b: u8, at: int)
    requires
        parse_chunk(s) is Ok,
        !parse_chunk(s)->Ok_0.is_end(),
        record_len(parse_chunk(s)->Ok_0) <= at,
        at + 4 <= i < s.len(),
        at + 8 <= s.len(),
        ({
            let n = record_len(parse_chunk(s)->Ok_0) as int;
            let behind = s.skip(n).update(i - n, b);
            parse_chunks(behind) == Err::<Seq<ChunkModel>, PngError>(
                rejection(behind.subrange(at - n + 4, at - n + 8)),
            )
        }),
    ensures
        parse_chunks(s.update(i, b)) == Err::<Seq<ChunkModel>, PngError>(
            rejection(s.update(i, b).subrange(at + 4, at + 8)),
        ),
{
    let n = record_len(parse_chunk(s)->Ok_0) as int;
    let t = s.update(i, b);
    lemma_change_behind_first_record(s, i, b);
    assert(t.skip(n).subrange(at - n + 4, at - n + 8) == t.subrange(at + 4, at + 8)) by {
        assert(t.skip(n).subrange(at - n + 4, at - n + 8) =~= t.subrange(at + 4, at + 8));
    }
    lemma_parse_chunks_fails_with_rest(t, rejection(t.subrange(at + 4, at + 8)));
}

/// Records in which one byte of a type, a payload or a checksum has been
/// changed do not decode.
pub proof fn lemma_parse_chunks_rejects_changed_byte(s: Seq<u8>, j: int, i: int, b: u8)
    requires
        parse_chunks(s) is Ok,
        0 <= j < parse_chunks(s)->Ok_0.len(),
        record_start(parse_chunks(s)->Ok_0, j) + 4 <= i < record_start(parse_chunks(s)->Ok_0, j)
            + record_len(parse_chunks(s)->Ok_0[j]),
        b != s[i],
    ensures
        ({
            let at = record_start(parse_chunks(s)->Ok_0, j);
            parse_chunks(s.update(i, b)) == Err::<Seq<ChunkModel>, PngError>(
                rejection(s.update(i, b).subrange(at + 4, at + 8)),
            )
        }),
    decreases j,
{
    let n = record_len(parse_chunk(s)->Ok_0) as int;
    lemma_parse_chunks_unfolds(s);
    lemma_parsed_record_place(s, j);
    if j == 0 {
        lemma_change_in_first_record(s, i, b);
    } else {
        lemma_parse_chunks_rejects_changed_byte(s.skip(n), j - 1, i - n, b);
        lemma_change_in_later_record(s, i, b, record_start(parse_chunks(s)->Ok_0, j));
    }
}

} // verus!
