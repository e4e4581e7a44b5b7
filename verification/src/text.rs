//! Text and the bytes that stand for it.
//!
//! Chunk types are text, and text is held in a stream as UTF-8. What UTF-8
//! is, `vstd::utf8` says at length. The three functions here give its notions
//! short names and keep their definitions out of proofs that do not ask for
//! them: to look inside, `reveal` the function.

use vstd::prelude::*;
use vstd::utf8::*;

verus! {

/// Whether `bytes` are text, which is to say valid UTF-8.
#[verifier::opaque]
pub open spec fn is_text(bytes: Seq<u8>) -> bool {
    valid_utf8(bytes)
}

/// The text that `bytes` stand for, where they are text.
#[verifier::opaque]
pub open spec fn text_of(bytes: Seq<u8>) -> Seq<char>
    recommends
        is_text(bytes),
{
    decode_utf8(bytes)
}

/// The bytes that stand for `text`.
#[verifier::opaque]
pub open spec fn bytes_of(text: Seq<char>) -> Seq<u8> {
    encode_utf8(text)
}

/// The bytes of a text are text, and stand for that text.
pub proof fn lemma_text_of_bytes_of(text: Seq<char>)
    ensures
        is_text(bytes_of(text)),
        text_of(bytes_of(text)) == text,
{
    reveal(is_text);
    reveal(text_of);
    reveal(bytes_of);
    encode_utf8_valid_utf8(text);
    encode_utf8_decode_utf8(text);
}

/// Bytes that are text are the bytes of the text they stand for.
pub proof fn lemma_bytes_of_text_of(bytes: Seq<u8>)
    requires
        is_text(bytes),
    ensures
        bytes_of(text_of(bytes)) == bytes,
{
    reveal(is_text);
    reveal(text_of);
    reveal(bytes_of);
    decode_utf8_encode_utf8(bytes);
}

/// Texts with the same bytes are the same text.
pub proof fn lemma_bytes_of_injective(a: Seq<char>, b: Seq<char>)
    requires
        bytes_of(a) == bytes_of(b),
    ensures
        a == b,
{
    lemma_text_of_bytes_of(a);
    lemma_text_of_bytes_of(b);
}

/// A text of ASCII characters has one byte for each of them, with the
/// character's own number.
pub proof fn lemma_bytes_of_ascii(text: Seq<char>)
    requires
        is_ascii_chars(text),
    ensures
        bytes_of(text).len() == text.len(),
        forall|i: int| 0 <= i < text.len() ==> #[trigger] bytes_of(text)[i] == text[i] as u8,
{
    reveal(bytes_of);
    is_ascii_chars_encode_utf8(text);
}

} // verus!
