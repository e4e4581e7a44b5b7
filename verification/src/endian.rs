//! Unsigned 32-bit integers as four bytes, most significant byte first.

use vstd::prelude::*;

verus! {

/// The four bytes of `v`, most significant first.
///
/// The definition is opaque: `reveal(be_bytes)` brings it into a proof.
#[verifier::opaque]
pub open spec fn be_bytes(v: u32) -> Seq<u8> {
    seq![
        (v / 0x100_0000) as u8,
        (v / 0x1_0000 % 0x100) as u8,
        (v / 0x100 % 0x100) as u8,
        (v % 0x100) as u8,
    ]
}

/// The integer whose four bytes, most significant first, are `bytes`.
///
/// The definition is opaque: `reveal(be_value)` brings it into a proof.
#[verifier::opaque]
pub open spec fn be_value(bytes: Seq<u8>) -> u32
    recommends
        bytes.len() == 4,
{
    (bytes[0] * 0x100_0000 + bytes[1] * 0x1_0000 + bytes[2] * 0x100 + bytes[3]) as u32
}

/// An integer has four bytes, and reading them back gives the integer.
pub proof fn lemma_be_value_of_bytes(v: u32)
    ensures
        be_bytes(v).len() == 4,
        be_value(be_bytes(v)) == v,
{
    reveal(be_bytes);
    reveal(be_value);
    let b0: u32 = v / 0x100_0000;
    let b1: u32 = v / 0x1_0000 % 0x100;
    let b2: u32 = v / 0x100 % 0x100;
    let b3: u32 = v % 0x100;
    assert(b0 < 0x100 && b1 < 0x100 && b2 < 0x100 && b3 < 0x100 && b0 * 0x100_0000 + b1 * 0x1_0000
        + b2 * 0x100 + b3 == v) by (bit_vector)
        requires
            b0 == v / 0x100_0000,
            b1 == v / 0x1_0000 % 0x100,
            b2 == v / 0x100 % 0x100,
            b3 == v % 0x100,
    ;
}

/// Writing out the integer read from four bytes gives those bytes.
pub proof fn lemma_be_bytes_of_value(bytes: Seq<u8>)
    requires
        bytes.len() == 4,
    ensures
        be_bytes(be_value(bytes)) == bytes,
{
    reveal(be_bytes);
    reveal(be_value);
    let b0: u32 = bytes[0] as u32;
    let b1: u32 = bytes[1] as u32;
    let b2: u32 = bytes[2] as u32;
    let b3: u32 = bytes[3] as u32;
    let v: u32 = (b0 * 0x100_0000 + b1 * 0x1_0000 + b2 * 0x100 + b3) as u32;
    assert(v / 0x100_0000 == b0 && v / 0x1_0000 % 0x100 == b1 && v / 0x100 % 0x100 == b2 && v
        % 0x100 == b3) by (bit_vector)
        requires
            b0 < 0x100,
            b1 < 0x100,
            b2 < 0x100,
            b3 < 0x100,
            v == b0 * 0x100_0000 + b1 * 0x1_0000 + b2 * 0x100 + b3,
    ;
    assert(be_bytes(be_value(bytes)) =~= bytes);
}

/// Splits `v` into its four bytes, most significant first.
pub fn u32_to_be(v: u32) -> (r: [u8; 4])
    ensures
        r@ == be_bytes(v),
{
    proof {
        reveal(be_bytes);
    }
    assert(v >> 24 == v / 0x100_0000 && (v >> 24) < 0x100) by (bit_vector);
    assert((v >> 16) & 0xff == v / 0x1_0000 % 0x100 && ((v >> 16) & 0xff) < 0x100) by (bit_vector);
    assert((v >> 8) & 0xff == v / 0x100 % 0x100 && ((v >> 8) & 0xff) < 0x100) by (bit_vector);
    assert(v & 0xff == v % 0x100 && (v & 0xff) < 0x100) by (bit_vector);
    let r: [u8; 4] = [
        (v >> 24) as u8,
        ((v >> 16) & 0xff) as u8,
        ((v >> 8) & 0xff) as u8,
        (v & 0xff) as u8,
    ];
    assert(r@ =~= be_bytes(v));
    r
}

/// Joins four bytes, most significant first, into one integer.
pub fn u32_from_be(bytes: &[u8]) -> (r: u32)
    requires
        bytes@.len() == 4,
    ensures
        r == be_value(bytes@),
{
    proof {
        reveal(be_value);
    }
    let b0: u32 = bytes[0] as u32;
    let b1: u32 = bytes[1] as u32;
    let b2: u32 = bytes[2] as u32;
    let b3: u32 = bytes[3] as u32;
    assert((b0 << 24) | (b1 << 16) | (b2 << 8) | b3 == b0 * 0x100_0000 + b1 * 0x1_0000 + b2 * 0x100
        + b3) by (bit_vector)
        requires
            b0 < 0x100,
            b1 < 0x100,
            b2 < 0x100,
            b3 < 0x100,
    ;
    (b0 << 24) | (b1 << 16) | (b2 << 8) | b3
}

} // verus!
