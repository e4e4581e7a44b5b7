//! One chunk of a PNG stream, and the constructor for textual chunks.

use crate::crc::{crc32, CRC};
use crate::error::PngError;
use crate::text::{bytes_of, lemma_bytes_of_ascii, lemma_bytes_of_injective};
use vstd::prelude::*;

verus! {

/// A chunk as the codec holds it in memory.
///
/// The codec frames chunks and does not look into their payload. A chunk that
/// comes from [`crate::png::Png::decode`] or [`Chunk::new_text`] is
/// [valid](ChunkModel::valid); the fields are open, so a caller can also make
/// one that is not.
#[derive(Clone, Debug, PartialEq, Eq)]
pub struct Chunk {
    /// The chunk type, four bytes of text in every chunk that can be written.
    pub kind: String,
    /// The declared number of payload bytes.
    pub length: u32,
    /// The payload.
    pub data: Vec<u8>,
    /// The CRC-32 of the type bytes followed by the payload.
    pub crc: u32,
}

/// What a [`Chunk`] holds, as mathematical values.
pub struct ChunkModel {
    /// The chunk type, as the characters of its text.
    pub kind: Seq<char>,
    /// The declared number of payload bytes.
    pub length: u32,
    /// The payload.
    pub data: Seq<u8>,
    /// The stored checksum.
    pub crc: u32,
}

impl View for Chunk {
    type V = ChunkModel;

    open spec fn view(&self) -> ChunkModel {
        ChunkModel { kind: self.kind@, length: self.length, data: self.data@, crc: self.crc }
    }
}

impl DeepView for Chunk {
    type V = ChunkModel;

    open spec fn deep_view(&self) -> ChunkModel {
        self@
    }
}

/// The length field that stands for a payload of `n` bytes: `n` itself as
/// long as it fits in 32 bits, and its low 32 bits beyond that.
pub open spec fn wire_length(n: nat) -> u32 {
    (n % 0x1_0000_0000) as u32
}

/// The length field that stands for a payload of `n` bytes.
pub fn length_field(n: usize) -> (r: u32)
    ensures
        r == wire_length(n as nat),
{
    (n as u64 % 0x1_0000_0000) as u32
}

impl ChunkModel {
    /// The type as the bytes that stand for it in a stream.
    pub open spec fn kind_bytes(self) -> Seq<u8> {
        bytes_of(self.kind)
    }

    /// The checksum that belongs to this type and payload.
    pub open spec fn checksum(self) -> u32 {
        crc32(self.kind_bytes() + self.data)
    }

    /// The declared length is the payload's, and the stored checksum is the
    /// one that belongs to type and payload.
    pub open spec fn valid(self) -> bool {
        &&& self.data.len() == self.length
        &&& self.crc == self.checksum()
    }

    /// The type is exactly four bytes long, as the stream format demands.
    pub open spec fn has_four_byte_kind(self) -> bool {
        self.kind_bytes().len() == 4
    }

    /// This is the chunk that ends a stream.
    pub open spec fn is_end(self) -> bool {
        self.kind == "IEND"@
    }
}

/// `text` with every carriage return that is directly followed by a line
/// feed left out.
pub open spec fn normalize_line_endings(text: Seq<u8>) -> Seq<u8>
    decreases text.len(),
{
    if text.len() == 0 {
        text
    } else if text.len() >= 2 && text[0] == 13 && text[1] == 10 {
        seq![10u8] + normalize_line_endings(text.skip(2))
    } else {
        seq![text[0]] + normalize_line_endings(text.skip(1))
    }
}

/// Whether a keyword and a text, given as their bytes, can go into a textual
/// chunk.
pub open spec fn text_accepted(keyword: Seq<u8>, text: Seq<u8>) -> bool {
    &&& 1 <= keyword.len() <= 79
    &&& !keyword.contains(0u8)
    &&& !text.contains(0u8)
    &&& normalize_line_endings(text).len() > 0
}

/// The payload of the textual chunk for a keyword and a text: the keyword, a
/// zero byte, and the text with its line endings normalized.
pub open spec fn text_payload(keyword: Seq<u8>, text: Seq<u8>) -> Seq<u8> {
    keyword + seq![0u8] + normalize_line_endings(text)
}

/// The textual chunk for a keyword and a text.
pub open spec fn text_chunk(keyword: Seq<u8>, text: Seq<u8>) -> ChunkModel {
    let payload = text_payload(keyword, text);
    ChunkModel {
        kind: "tEXt"@,
        length: wire_length(payload.len()),
        data: payload,
        crc: crc32(bytes_of("tEXt"@) + payload),
    }
}

/// The textual chunk for any keyword and text can be encoded, is not the
/// chunk that ends a stream, and is valid as long as its payload's length
/// fits the length field.
pub proof fn lemma_text_chunk(keyword: Seq<u8>, text: Seq<u8>)
    ensures
        text_chunk(keyword, text).has_four_byte_kind(),
        !text_chunk(keyword, text).is_end(),
        text_chunk(keyword, text).crc == text_chunk(keyword, text).checksum(),
        text_payload(keyword, text).len() <= u32::MAX ==> text_chunk(keyword, text).valid(),
{
    reveal_strlit("tEXt");
    reveal_strlit("IEND");
    lemma_bytes_of_ascii("tEXt"@);
    assert("tEXt"@[0] != "IEND"@[0]);
}

/// Whether two runs of bytes are the same.
pub fn bytes_equal(a: &[u8], b: &[u8]) -> (r: bool)
    ensures
        r == (a@ == b@),
{
    if a.len() != b.len() {
        return false;
    }
    let mut i: usize = 0;
    while i < a.len()
        invariant
            a@.len() == b@.len(),
            i <= a.len(),
            a@.take(i as int) == b@.take(i as int),
        decreases a.len() - i,
    {
        if a[i] != b[i] {
            return false;
        }
        assert(a@.take(i + 1) =~= a@.take(i as int).push(a@[i as int]));
        assert(b@.take(i + 1) =~= b@.take(i as int).push(b@[i as int]));
        i += 1;
    }
    assert(a@.take(i as int) =~= a@);
    assert(b@.take(i as int) =~= b@);
    true
}

/// Whether a zero byte occurs in `bytes`.
pub fn contains_zero(bytes: &[u8]) -> (r: bool)
    ensures
        r == bytes@.contains(0u8),
{
    let mut i: usize = 0;
    while i < bytes.len()
        invariant
            i <= bytes.len(),
            forall|j: int| 0 <= j < i ==> bytes@[j] != 0,
        decreases bytes.len() - i,
    {
        if bytes[i] == 0 {
            return true;
        }
        i += 1;
    }
    false
}

/// Copies `text`, leaving out every carriage return that is directly followed
/// by a line feed.
pub fn normalized_line_endings(text: &[u8]) -> (r: Vec<u8>)
    ensures
        r@ == normalize_line_endings(text@),
{
    let mut out: Vec<u8> = Vec::new();
    let mut i: usize = 0;
    assert(text@.skip(0) =~= text@);
    assert(out@ + normalize_line_endings(text@) =~= normalize_line_endings(text@));
    while i < text.len()
        invariant
            i <= text.len(),
            normalize_line_endings(text@) == out@ + normalize_line_endings(text@.skip(i as int)),
        decreases text.len() - i,
    {
        let ghost rest = text@.skip(i as int);
        if text[i] == 13 && i + 1 < text.len() && text[i + 1] == 10 {
            assert(rest.skip(2) =~= text@.skip(i + 2));
            assert(out@.push(10u8) + normalize_line_endings(rest.skip(2)) =~= out@ + (seq![10u8]
                + normalize_line_endings(rest.skip(2))));
            out.push(10);
            i += 2;
        } else {
            assert(rest.skip(1) =~= text@.skip(i + 1));
            assert(out@.push(rest[0]) + normalize_line_endings(rest.skip(1)) =~= out@ + (seq![
                rest[0],
            ] + normalize_line_endings(rest.skip(1))));
            out.push(text[i]);
            i += 1;
        }
    }
    assert(out@ + normalize_line_endings(text@.skip(i as int)) =~= out@);
    out
}

impl Chunk {
    /// Builds the `tEXt` chunk that carries `text` under `keyword`.
    ///
    /// The keyword must be 1 to 79 bytes long, neither string may hold a zero
    /// byte, and the text must not be empty once every `"\r\n"` in it has been
    /// replaced by `"\n"`. The chunk comes back with its checksum computed.
    pub fn new_text(keyword: &str, text: &str) -> (r: Result<Chunk, PngError>)
        ensures
            match r {
                Ok(chunk) => {
                    &&& text_accepted(bytes_of(keyword@), bytes_of(text@))
                    &&& chunk@ == text_chunk(bytes_of(keyword@), bytes_of(text@))
                    &&& chunk@.has_four_byte_kind()
                    &&& chunk@.data.len() <= u32::MAX ==> chunk@.valid()
                },
                Err(e) => {
                    &&& !text_accepted(bytes_of(keyword@), bytes_of(text@))
                    &&& e == PngError::InvalidTextMetadata
                },
            },
    {
        proof {
            reveal(bytes_of);
            lemma_text_chunk(bytes_of(keyword@), bytes_of(text@));
        }
        let keyword_bytes: &[u8] = keyword.as_bytes();
        if keyword_bytes.len() == 0 || keyword_bytes.len() > 79 || contains_zero(keyword_bytes) {
            return Err(PngError::InvalidTextMetadata);
        }
        let text_bytes: &[u8] = text.as_bytes();
        if contains_zero(text_bytes) {
            return Err(PngError::InvalidTextMetadata);
        }
        let text_bytes: Vec<u8> = normalized_line_endings(text_bytes);
        if text_bytes.len() == 0 {
            return Err(PngError::InvalidTextMetadata);
        }
        let kind: String = "tEXt".to_owned();
        let mut data: Vec<u8> = Vec::new();
        data.extend_from_slice(keyword_bytes);
        data.push(0);
        data.extend_from_slice(text_bytes.as_slice());

        let length: u32 = length_field(data.len());

        let mut crc = CRC::new();
        crc.update(kind.as_str().as_bytes());
        crc.update(data.as_slice());
        assert(crc@ =~= bytes_of("tEXt"@) + data@);
        assert(data@ =~= text_payload(bytes_of(keyword@), bytes_of(text@)));

        Ok(Chunk { kind, length, data, crc: crc.value() })
    }

    /// Whether this is the chunk that ends a stream.
    pub fn is_end(&self) -> (r: bool)
        ensures
            r == self@.is_end(),
    {
        proof {
            reveal(bytes_of);
            if bytes_of(self.kind@) == bytes_of("IEND"@) {
                lemma_bytes_of_injective(self.kind@, "IEND"@);
            }
        }
        bytes_equal(self.kind.as_str().as_bytes(), "IEND".as_bytes())
    }
}

} // verus!
