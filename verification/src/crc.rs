//! CRC-32 with the polynomial shared by PNG, zlib and gzip.
//!
//! The checksum is defined here bit by bit, as a reflected shift register with
//! the generator `0xEDB88320`, preset to all ones and complemented at the end.
//! The accumulator [`CRC`] computes it a byte at a time through a lookup
//! table, and is proved to agree with the bitwise definition.

use vstd::prelude::*;

verus! {

/// The generator polynomial `0x04C11DB7`, bit-reversed.
pub const POLYNOMIAL: u32 = 0xEDB8_8320;

/// The register before any byte has been folded in, and the mask that
/// complements it into the checksum.
pub const ALL_ONES: u32 = 0xFFFF_FFFF;

/// The register after one input bit has been shifted out of it.
pub open spec fn shift_bit(x: u32) -> u32 {
    if x & 1 == 1 {
        (x >> 1) ^ POLYNOMIAL
    } else {
        x >> 1
    }
}

/// The register after eight bits have been shifted out of it.
///
/// The definition is opaque: bit-vector proofs see through it, and
/// `reveal(shift_byte)` brings it into any other proof.
#[verifier::opaque]
pub open spec fn shift_byte(x: u32) -> u32 {
    shift_bit(shift_bit(shift_bit(shift_bit(shift_bit(shift_bit(shift_bit(shift_bit(x))))))))
}

/// The register after the byte `b` has been folded into the register `c`.
pub open spec fn fold_byte(c: u32, b: u8) -> u32 {
    shift_byte(c ^ (b as u32))
}

/// The register after all of `bytes` have been folded into `c`, first byte
/// first.
pub open spec fn fold_bytes(c: u32, bytes: Seq<u8>) -> u32
    decreases bytes.len(),
{
    if bytes.len() == 0 {
        c
    } else {
        fold_byte(fold_bytes(c, bytes.drop_last()), bytes.last())
    }
}

/// The CRC-32 checksum of `bytes`.
pub open spec fn crc32(bytes: Seq<u8>) -> u32 {
    fold_bytes(ALL_ONES, bytes) ^ ALL_ONES
}

proof fn lemma_table_entries()
    by (bit_vector)
    ensures
        shift_byte(0u32) == 0x00000000u32,
        shift_byte(1u32) == 0x77073096u32,
        shift_byte(2u32) == 0xee0e612cu32,
        shift_byte(3u32) == 0x990951bau32,
        shift_byte(4u32) == 0x076dc419u32,
        shift_byte(5u32) == 0x706af48fu32,
        shift_byte(6u32) == 0xe963a535u32,
        shift_byte(7u32) == 0x9e6495a3u32,
        shift_byte(8u32) == 0x0edb8832u32,
        shift_byte(9u32) == 0x79dcb8a4u32,
        shift_byte(10u32) == 0xe0d5e91eu32,
        shift_byte(11u32) == 0x97d2d988u32,
        shift_byte(12u32) == 0x09b64c2bu32,
        shift_byte(13u32) == 0x7eb17cbdu32,
        shift_byte(14u32) == 0xe7b82d07u32,
        shift_byte(15u32) == 0x90bf1d91u32,
        shift_byte(16u32) == 0x1db71064u32,
        shift_byte(17u32) == 0x6ab020f2u32,
        shift_byte(18u32) == 0xf3b97148u32,
        shift_byte(19u32) == 0x84be41deu32,
        shift_byte(20u32) == 0x1adad47du32,
        shift_byte(21u32) == 0x6ddde4ebu32,
        shift_byte(22u32) == 0xf4d4b551u32,
        shift_byte(23u32) == 0x83d385c7u32,
        shift_byte(24u32) == 0x136c9856u32,
        shift_byte(25u32) == 0x646ba8c0u32,
        shift_byte(26u32) == 0xfd62f97au32,
        shift_byte(27u32) == 0x8a65c9ecu32,
        shift_byte(28u32) == 0x14015c4fu32,
        shift_byte(29u32) == 0x63066cd9u32,
        shift_byte(30u32) == 0xfa0f3d63u32,
        shift_byte(31u32) == 0x8d080df5u32,
        shift_byte(32u32) == 0x3b6e20c8u32,
        shift_byte(33u32) == 0x4c69105eu32,
        shift_byte(34u32) == 0xd56041e4u32,
        shift_byte(35u32) == 0xa2677172u32,
        shift_byte(36u32) == 0x3c03e4d1u32,
        shift_byte(37u32) == 0x4b04d447u32,
        shift_byte(38u32) == 0xd20d85fdu32,
        shift_byte(39u32) == 0xa50ab56bu32,
        shift_byte(40u32) == 0x35b5a8fau32,
        shift_byte(41u32) == 0x42b2986cu32,
        shift_byte(42u32) == 0xdbbbc9d6u32,
        shift_byte(43u32) == 0xacbcf940u32,
        shift_byte(44u32) == 0x32d86ce3u32,
        shift_byte(45u32) == 0x45df5c75u32,
        shift_byte(46u32) == 0xdcd60dcfu32,
        shift_byte(47u32) == 0xabd13d59u32,
        shift_byte(48u32) == 0x26d930acu32,
        shift_byte(49u32) == 0x51de003au32,
        shift_byte(50u32) == 0xc8d75180u32,
        shift_byte(51u32) == 0xbfd06116u32,
        shift_byte(52u32) == 0x21b4f4b5u32,
        shift_byte(53u32) == 0x56b3c423u32,
        shift_byte(54u32) == 0xcfba9599u32,
        shift_byte(55u32) == 0xb8bda50fu32,
        shift_byte(56u32) == 0x2802b89eu32,
        shift_byte(57u32) == 0x5f058808u32,
        shift_byte(58u32) == 0xc60cd9b2u32,
        shift_byte(59u32) == 0xb10be924u32,
        shift_byte(60u32) == 0x2f6f7c87u32,
        shift_byte(61u32) == 0x58684c11u32,
        shift_byte(62u32) == 0xc1611dabu32,
        shift_byte(63u32) == 0xb6662d3du32,
        shift_byte(64u32) == 0x76dc4190u32,
        shift_byte(65u32) == 0x01db7106u32,
        shift_byte(66u32) == 0x98d220bcu32,
        shift_byte(67u32) == 0xefd5102au32,
        shift_byte(68u32) == 0x71b18589u32,
        shift_byte(69u32) == 0x06b6b51fu32,
        shift_byte(70u32) == 0x9fbfe4a5u32,
        shift_byte(71u32) == 0xe8b8d433u32,
        shift_byte(72u32) == 0x7807c9a2u32,
        shift_byte(73u32) == 0x0f00f934u32,
        shift_byte(74u32) == 0x9609a88eu32,
        shift_byte(75u32) == 0xe10e9818u32,
        shift_byte(76u32) == 0x7f6a0dbbu32,
        shift_byte(77u32) == 0x086d3d2du32,
        shift_byte(78u32) == 0x91646c97u32,
        shift_byte(79u32) == 0xe6635c01u32,
        shift_byte(80u32) == 0x6b6b51f4u32,
        shift_byte(81u32) == 0x1c6c6162u32,
        shift_byte(82u32) == 0x856530d8u32,
        shift_byte(83u32) == 0xf262004eu32,
        shift_byte(84u32) == 0x6c0695edu32,
        shift_byte(85u32) == 0x1b01a57bu32,
        shift_byte(86u32) == 0x8208f4c1u32,
        shift_byte(87u32) == 0xf50fc457u32,
        shift_byte(88u32) == 0x65b0d9c6u32,
        shift_byte(89u32) == 0x12b7e950u32,
        shift_byte(90u32) == 0x8bbeb8eau32,
        shift_byte(91u32) == 0xfcb9887cu32,
        shift_byte(92u32) == 0x62dd1ddfu32,
        shift_byte(93u32) == 0x15da2d49u32,
        shift_byte(94u32) == 0x8cd37cf3u32,
        shift_byte(95u32) == 0xfbd44c65u32,
        shift_byte(96u32) == 0x4db26158u32,
        shift_byte(97u32) == 0x3ab551ceu32,
        shift_byte(98u32) == 0xa3bc0074u32,
        shift_byte(99u32) == 0xd4bb30e2u32,
        shift_byte(100u32) == 0x4adfa541u32,
        shift_byte(101u32) == 0x3dd895d7u32,
        shift_byte(102u32) == 0xa4d1c46du32,
        shift_byte(103u32) == 0xd3d6f4fbu32,
        shift_byte(104u32) == 0x4369e96au32,
        shift_byte(105u32) == 0x346ed9fcu32,
        shift_byte(106u32) == 0xad678846u32,
        shift_byte(107u32) == 0xda60b8d0u32,
        shift_byte(108u32) == 0x44042d73u32,
        shift_byte(109u32) == 0x33031de5u32,
        shift_byte(110u32) == 0xaa0a4c5fu32,
        shift_byte(111u32) == 0xdd0d7cc9u32,
        shift_byte(112u32) == 0x5005713cu32,
        shift_byte(113u32) == 0x270241aau32,
        shift_byte(114u32) == 0xbe0b1010u32,
        shift_byte(115u32) == 0xc90c2086u32,
        shift_byte(116u32) == 0x5768b525u32,
        shift_byte(117u32) == 0x206f85b3u32,
        shift_byte(118u32) == 0xb966d409u32,
        shift_byte(119u32) == 0xce61e49fu32,
        shift_byte(120u32) == 0x5edef90eu32,
        shift_byte(121u32) == 0x29d9c998u32,
        shift_byte(122u32) == 0xb0d09822u32,
        shift_byte(123u32) == 0xc7d7a8b4u32,
        shift_byte(124u32) == 0x59b33d17u32,
        shift_byte(125u32) == 0x2eb40d81u32,
        shift_byte(126u32) == 0xb7bd5c3bu32,
        shift_byte(127u32) == 0xc0ba6cadu32,
        shift_byte(128u32) == 0xedb88320u32,
        shift_byte(129u32) == 0x9abfb3b6u32,
        shift_byte(130u32) == 0x03b6e20cu32,
        shift_byte(131u32) == 0x74b1d29au32,
        shift_byte(132u32) == 0xead54739u32,
        shift_byte(133u32) == 0x9dd277afu32,
        shift_byte(134u32) == 0x04db2615u32,
        shift_byte(135u32) == 0x73dc1683u32,
        shift_byte(136u32) == 0xe3630b12u32,
        shift_byte(137u32) == 0x94643b84u32,
        shift_byte(138u32) == 0x0d6d6a3eu32,
        shift_byte(139u32) == 0x7a6a5aa8u32,
        shift_byte(140u32) == 0xe40ecf0bu32,
        shift_byte(141u32) == 0x9309ff9du32,
        shift_byte(142u32) == 0x0a00ae27u32,
        shift_byte(143u32) == 0x7d079eb1u32,
        shift_byte(144u32) == 0xf00f9344u32,
        shift_byte(145u32) == 0x8708a3d2u32,
        shift_byte(146u32) == 0x1e01f268u32,
        shift_byte(147u32) == 0x6906c2feu32,
        shift_byte(148u32) == 0xf762575du32,
        shift_byte(149u32) == 0x806567cbu32,
        shift_byte(150u32) == 0x196c3671u32,
        shift_byte(151u32) == 0x6e6b06e7u32,
        shift_byte(152u32) == 0xfed41b76u32,
        shift_byte(153u32) == 0x89d32be0u32,
        shift_byte(154u32) == 0x10da7a5au32,
        shift_byte(155u32) == 0x67dd4accu32,
        shift_byte(156u32) == 0xf9b9df6fu32,
        shift_byte(157u32) == 0x8ebeeff9u32,
        shift_byte(158u32) == 0x17b7be43u32,
        shift_byte(159u32) == 0x60b08ed5u32,
        shift_byte(160u32) == 0xd6d6a3e8u32,
        shift_byte(161u32) == 0xa1d1937eu32,
        shift_byte(162u32) == 0x38d8c2c4u32,
        shift_byte(163u32) == 0x4fdff252u32,
        shift_byte(164u32) == 0xd1bb67f1u32,
        shift_byte(165u32) == 0xa6bc5767u32,
        shift_byte(166u32) == 0x3fb506ddu32,
        shift_byte(167u32) == 0x48b2364bu32,
        shift_byte(168u32) == 0xd80d2bdau32,
        shift_byte(169u32) == 0xaf0a1b4cu32,
        shift_byte(170u32) == 0x36034af6u32,
        shift_byte(171u32) == 0x41047a60u32,
        shift_byte(172u32) == 0xdf60efc3u32,
        shift_byte(173u32) == 0xa867df55u32,
        shift_byte(174u32) == 0x316e8eefu32,
        shift_byte(175u32) == 0x4669be79u32,
        shift_byte(176u32) == 0xcb61b38cu32,
        shift_byte(177u32) == 0xbc66831au32,
        shift_byte(178u32) == 0x256fd2a0u32,
        shift_byte(179u32) == 0x5268e236u32,
        shift_byte(180u32) == 0xcc0c7795u32,
        shift_byte(181u32) == 0xbb0b4703u32,
        shift_byte(182u32) == 0x220216b9u32,
        shift_byte(183u32) == 0x5505262fu32,
        shift_byte(184u32) == 0xc5ba3bbeu32,
        shift_byte(185u32) == 0xb2bd0b28u32,
        shift_byte(186u32) == 0x2bb45a92u32,
        shift_byte(187u32) == 0x5cb36a04u32,
        shift_byte(188u32) == 0xc2d7ffa7u32,
        shift_byte(189u32) == 0xb5d0cf31u32,
        shift_byte(190u32) == 0x2cd99e8bu32,
        shift_byte(191u32) == 0x5bdeae1du32,
        shift_byte(192u32) == 0x9b64c2b0u32,
        shift_byte(193u32) == 0xec63f226u32,
        shift_byte(194u32) == 0x756aa39cu32,
        shift_byte(195u32) == 0x026d930au32,
        shift_byte(196u32) == 0x9c0906a9u32,
        shift_byte(197u32) == 0xeb0e363fu32,
        shift_byte(198u32) == 0x72076785u32,
        shift_byte(199u32) == 0x05005713u32,
        shift_byte(200u32) == 0x95bf4a82u32,
        shift_byte(201u32) == 0xe2b87a14u32,
        shift_byte(202u32) == 0x7bb12baeu32,
        shift_byte(203u32) == 0x0cb61b38u32,
        shift_byte(204u32) == 0x92d28e9bu32,
        shift_byte(205u32) == 0xe5d5be0du32,
        shift_byte(206u32) == 0x7cdcefb7u32,
        shift_byte(207u32) == 0x0bdbdf21u32,
        shift_byte(208u32) == 0x86d3d2d4u32,
        shift_byte(209u32) == 0xf1d4e242u32,
        shift_byte(210u32) == 0x68ddb3f8u32,
        shift_byte(211u32) == 0x1fda836eu32,
        shift_byte(212u32) == 0x81be16cdu32,
        shift_byte(213u32) == 0xf6b9265bu32,
        shift_byte(214u32) == 0x6fb077e1u32,
        shift_byte(215u32) == 0x18b74777u32,
        shift_byte(216u32) == 0x88085ae6u32,
        shift_byte(217u32) == 0xff0f6a70u32,
        shift_byte(218u32) == 0x66063bcau32,
        shift_byte(219u32) == 0x11010b5cu32,
        shift_byte(220u32) == 0x8f659effu32,
        shift_byte(221u32) == 0xf862ae69u32,
        shift_byte(222u32) == 0x616bffd3u32,
        shift_byte(223u32) == 0x166ccf45u32,
        shift_byte(224u32) == 0xa00ae278u32,
        shift_byte(225u32) == 0xd70dd2eeu32,
        shift_byte(226u32) == 0x4e048354u32,
        shift_byte(227u32) == 0x3903b3c2u32,
        shift_byte(228u32) == 0xa7672661u32,
        shift_byte(229u32) == 0xd06016f7u32,
        shift_byte(230u32) == 0x4969474du32,
        shift_byte(231u32) == 0x3e6e77dbu32,
        shift_byte(232u32) == 0xaed16a4au32,
        shift_byte(233u32) == 0xd9d65adcu32,
        shift_byte(234u32) == 0x40df0b66u32,
        shift_byte(235u32) == 0x37d83bf0u32,
        shift_byte(236u32) == 0xa9bcae53u32,
        shift_byte(237u32) == 0xdebb9ec5u32,
        shift_byte(238u32) == 0x47b2cf7fu32,
        shift_byte(239u32) == 0x30b5ffe9u32,
        shift_byte(240u32) == 0xbdbdf21cu32,
        shift_byte(241u32) == 0xcabac28au32,
        shift_byte(242u32) == 0x53b39330u32,
        shift_byte(243u32) == 0x24b4a3a6u32,
        shift_byte(244u32) == 0xbad03605u32,
        shift_byte(245u32) == 0xcdd70693u32,
        shift_byte(246u32) == 0x54de5729u32,
        shift_byte(247u32) == 0x23d967bfu32,
        shift_byte(248u32) == 0xb3667a2eu32,
        shift_byte(249u32) == 0xc4614ab8u32,
        shift_byte(250u32) == 0x5d681b02u32,
        shift_byte(251u32) == 0x2a6f2b94u32,
        shift_byte(252u32) == 0xb40bbe37u32,
        shift_byte(253u32) == 0xc30c8ea1u32,
        shift_byte(254u32) == 0x5a05df1bu32,
        shift_byte(255u32) == 0x2d02ef8du32,
{
}

/// Every entry of [`CRC::CRC_TABLE`] is its index after eight shifts.
pub proof fn lemma_table_is_shift_byte()
    ensures
        forall|k: u32| k < 256 ==> CRC::CRC_TABLE[k as int] == #[trigger] shift_byte(k),
{
    lemma_table_entries();
}

/// Folding in a byte comes to eight shifts of the byte XORed with the
/// register's low byte, combined with the register's upper three bytes.
pub proof fn lemma_fold_byte_by_table(c: u32, b: u8)
    by (bit_vector)
    ensures
        (c ^ (b as u32)) & 0xff < 256,
        fold_byte(c, b) == shift_byte((c ^ (b as u32)) & 0xff) ^ (c >> 8),
{
}

/// Folding in a byte is one step of the table-driven algorithm: the byte is
/// XORed into the register's low byte, the result picks a table entry, and
/// that entry is XORed with the register shifted right by eight bits.
pub proof fn lemma_fold_byte_is_table_step(c: u32, b: u8)
    ensures
        (c ^ (b as u32)) & 0xff < 256,
        fold_byte(c, b) == CRC::CRC_TABLE[((c ^ (b as u32)) & 0xff) as int] ^ (c >> 8),
{
    lemma_fold_byte_by_table(c, b);
    lemma_table_is_shift_byte();
}

/// Folding in two runs of bytes one after the other is folding in their
/// concatenation.
pub proof fn lemma_fold_bytes_concat(c: u32, first: Seq<u8>, second: Seq<u8>)
    ensures
        fold_bytes(c, first + second) == fold_bytes(fold_bytes(c, first), second),
    decreases second.len(),
{
    if second.len() == 0 {
        assert(first + second =~= first);
    } else {
        lemma_fold_bytes_concat(c, first, second.drop_last());
        assert((first + second).drop_last() =~= first + second.drop_last());
    }
}

/// Shifting eight bits out loses nothing: different registers stay different.
pub proof fn lemma_shift_byte_injective(x: u32, y: u32)
    by (bit_vector)
    requires
        x != y,
    ensures
        shift_byte(x) != shift_byte(y),
{
}

/// Registers that differ before a run of bytes is folded into both still
/// differ after it.
pub proof fn lemma_fold_bytes_keeps_difference(c1: u32, c2: u32, bytes: Seq<u8>)
    requires
        c1 != c2,
    ensures
        fold_bytes(c1, bytes) != fold_bytes(c2, bytes),
    decreases bytes.len(),
{
    if bytes.len() > 0 {
        lemma_fold_bytes_keeps_difference(c1, c2, bytes.drop_last());
        let r1 = fold_bytes(c1, bytes.drop_last());
        let r2 = fold_bytes(c2, bytes.drop_last());
        let b = bytes.last();
        assert(r1 ^ (b as u32) != r2 ^ (b as u32)) by (bit_vector)
            requires
                r1 != r2,
        ;
        lemma_shift_byte_injective(r1 ^ (b as u32), r2 ^ (b as u32));
    }
}

/// Two messages of one length that differ in exactly one byte have different
/// checksums.
pub proof fn lemma_crc32_detects_changed_byte(a: Seq<u8>, b: Seq<u8>, i: int)
    requires
        a.len() == b.len(),
        0 <= i < a.len(),
        a[i] != b[i],
        forall|j: int| 0 <= j < a.len() && j != i ==> a[j] == b[j],
    ensures
        crc32(a) != crc32(b),
{
    let head = a.take(i);
    let tail = a.skip(i + 1);
    assert(a =~= head + seq![a[i]] + tail);
    assert(b =~= head + seq![b[i]] + tail);
    let c = fold_bytes(ALL_ONES, head);
    lemma_fold_bytes_concat(ALL_ONES, head, seq![a[i]]);
    lemma_fold_bytes_concat(ALL_ONES, head, seq![b[i]]);
    lemma_fold_bytes_concat(ALL_ONES, head + seq![a[i]], tail);
    lemma_fold_bytes_concat(ALL_ONES, head + seq![b[i]], tail);
    let x = a[i];
    let y = b[i];
    assert(seq![x].drop_last() =~= Seq::<u8>::empty());
    assert(seq![y].drop_last() =~= Seq::<u8>::empty());
    assert(fold_bytes(c, seq![x]) == fold_byte(c, x)) by {
        reveal_with_fuel(fold_bytes, 2);
    }
    assert(fold_bytes(c, seq![y]) == fold_byte(c, y)) by {
        reveal_with_fuel(fold_bytes, 2);
    }
    assert(c ^ (x as u32) != c ^ (y as u32)) by (bit_vector)
        requires
            x != y,
    ;
    lemma_shift_byte_injective(c ^ (x as u32), c ^ (y as u32));
    lemma_fold_bytes_keeps_difference(fold_byte(c, x), fold_byte(c, y), tail);
    let ra = fold_bytes(ALL_ONES, a);
    let rb = fold_bytes(ALL_ONES, b);
    assert(ra ^ ALL_ONES != rb ^ ALL_ONES) by (bit_vector)
        requires
            ra != rb,
    ;
}

/// A running CRC-32. Its view is the sequence of all bytes folded in so far.
pub struct CRC {
    c: u32,
    fed: Ghost<Seq<u8>>,
}

impl View for CRC {
    type V = Seq<u8>;

    closed spec fn view(&self) -> Seq<u8> {
        self.fed@
    }
}

impl CRC {
    /// What eight shifts make of each of the 256 values of the register's
    /// low byte.
    pub const CRC_TABLE: [u32; 256] = [
        0x00000000, 0x77073096, 0xee0e612c, 0x990951ba,
        0x076dc419, 0x706af48f, 0xe963a535, 0x9e6495a3,
        0x0edb8832, 0x79dcb8a4, 0xe0d5e91e, 0x97d2d988,
        0x09b64c2b, 0x7eb17cbd, 0xe7b82d07, 0x90bf1d91,
        0x1db71064, 0x6ab020f2, 0xf3b97148, 0x84be41de,
        0x1adad47d, 0x6ddde4eb, 0xf4d4b551, 0x83d385c7,
        0x136c9856, 0x646ba8c0, 0xfd62f97a, 0x8a65c9ec,
        0x14015c4f, 0x63066cd9, 0xfa0f3d63, 0x8d080df5,
        0x3b6e20c8, 0x4c69105e, 0xd56041e4, 0xa2677172,
        0x3c03e4d1, 0x4b04d447, 0xd20d85fd, 0xa50ab56b,
        0x35b5a8fa, 0x42b2986c, 0xdbbbc9d6, 0xacbcf940,
        0x32d86ce3, 0x45df5c75, 0xdcd60dcf, 0xabd13d59,
        0x26d930ac, 0x51de003a, 0xc8d75180, 0xbfd06116,
        0x21b4f4b5, 0x56b3c423, 0xcfba9599, 0xb8bda50f,
        0x2802b89e, 0x5f058808, 0xc60cd9b2, 0xb10be924,
        0x2f6f7c87, 0x58684c11, 0xc1611dab, 0xb6662d3d,
        0x76dc4190, 0x01db7106, 0x98d220bc, 0xefd5102a,
        0x71b18589, 0x06b6b51f, 0x9fbfe4a5, 0xe8b8d433,
        0x7807c9a2, 0x0f00f934, 0x9609a88e, 0xe10e9818,
        0x7f6a0dbb, 0x086d3d2d, 0x91646c97, 0xe6635c01,
        0x6b6b51f4, 0x1c6c6162, 0x856530d8, 0xf262004e,
        0x6c0695ed, 0x1b01a57b, 0x8208f4c1, 0xf50fc457,
        0x65b0d9c6, 0x12b7e950, 0x8bbeb8ea, 0xfcb9887c,
        0x62dd1ddf, 0x15da2d49, 0x8cd37cf3, 0xfbd44c65,
        0x4db26158, 0x3ab551ce, 0xa3bc0074, 0xd4bb30e2,
        0x4adfa541, 0x3dd895d7, 0xa4d1c46d, 0xd3d6f4fb,
        0x4369e96a, 0x346ed9fc, 0xad678846, 0xda60b8d0,
        0x44042d73, 0x33031de5, 0xaa0a4c5f, 0xdd0d7cc9,
        0x5005713c, 0x270241aa, 0xbe0b1010, 0xc90c2086,
        0x5768b525, 0x206f85b3, 0xb966d409, 0xce61e49f,
        0x5edef90e, 0x29d9c998, 0xb0d09822, 0xc7d7a8b4,
        0x59b33d17, 0x2eb40d81, 0xb7bd5c3b, 0xc0ba6cad,
        0xedb88320, 0x9abfb3b6, 0x03b6e20c, 0x74b1d29a,
        0xead54739, 0x9dd277af, 0x04db2615, 0x73dc1683,
        0xe3630b12, 0x94643b84, 0x0d6d6a3e, 0x7a6a5aa8,
        0xe40ecf0b, 0x9309ff9d, 0x0a00ae27, 0x7d079eb1,
        0xf00f9344, 0x8708a3d2, 0x1e01f268, 0x6906c2fe,
        0xf762575d, 0x806567cb, 0x196c3671, 0x6e6b06e7,
        0xfed41b76, 0x89d32be0, 0x10da7a5a, 0x67dd4acc,
        0xf9b9df6f, 0x8ebeeff9, 0x17b7be43, 0x60b08ed5,
        0xd6d6a3e8, 0xa1d1937e, 0x38d8c2c4, 0x4fdff252,
        0xd1bb67f1, 0xa6bc5767, 0x3fb506dd, 0x48b2364b,
        0xd80d2bda, 0xaf0a1b4c, 0x36034af6, 0x41047a60,
        0xdf60efc3, 0xa867df55, 0x316e8eef, 0x4669be79,
        0xcb61b38c, 0xbc66831a, 0x256fd2a0, 0x5268e236,
        0xcc0c7795, 0xbb0b4703, 0x220216b9, 0x5505262f,
        0xc5ba3bbe, 0xb2bd0b28, 0x2bb45a92, 0x5cb36a04,
        0xc2d7ffa7, 0xb5d0cf31, 0x2cd99e8b, 0x5bdeae1d,
        0x9b64c2b0, 0xec63f226, 0x756aa39c, 0x026d930a,
        0x9c0906a9, 0xeb0e363f, 0x72076785, 0x05005713,
        0x95bf4a82, 0xe2b87a14, 0x7bb12bae, 0x0cb61b38,
        0x92d28e9b, 0xe5d5be0d, 0x7cdcefb7, 0x0bdbdf21,
        0x86d3d2d4, 0xf1d4e242, 0x68ddb3f8, 0x1fda836e,
        0x81be16cd, 0xf6b9265b, 0x6fb077e1, 0x18b74777,
        0x88085ae6, 0xff0f6a70, 0x66063bca, 0x11010b5c,
        0x8f659eff, 0xf862ae69, 0x616bffd3, 0x166ccf45,
        0xa00ae278, 0xd70dd2ee, 0x4e048354, 0x3903b3c2,
        0xa7672661, 0xd06016f7, 0x4969474d, 0x3e6e77db,
        0xaed16a4a, 0xd9d65adc, 0x40df0b66, 0x37d83bf0,
        0xa9bcae53, 0xdebb9ec5, 0x47b2cf7f, 0x30b5ffe9,
        0xbdbdf21c, 0xcabac28a, 0x53b39330, 0x24b4a3a6,
        0xbad03605, 0xcdd70693, 0x54de5729, 0x23d967bf,
        0xb3667a2e, 0xc4614ab8, 0x5d681b02, 0x2a6f2b94,
        0xb40bbe37, 0xc30c8ea1, 0x5a05df1b, 0x2d02ef8d,
    ];

    #[verifier::type_invariant]
    spec fn register_follows_input(self) -> bool {
        self.c == fold_bytes(ALL_ONES, self.fed@)
    }

    /// An accumulator that has seen no bytes yet.
    pub fn new() -> (r: CRC)
        ensures
            r@ == Seq::<u8>::empty(),
    {
        CRC { c: ALL_ONES, fed: Ghost(Seq::empty()) }
    }

    /// Folds `buf` into the running checksum.
    pub fn update(&mut self, buf: &[u8])
        ensures
            final(self)@ == old(self)@ + buf@,
    {
        proof {
            use_type_invariant(&*self);
        }
        let ghost start: u32 = self.c;
        let mut c: u32 = self.c;
        let mut i: usize = 0;
        while i < buf.len()
            invariant
                i <= buf.len(),
                c == fold_bytes(start, buf@.take(i as int)),
            decreases buf.len() - i,
        {
            let b: u8 = buf[i];
            proof {
                lemma_fold_byte_is_table_step(c, b);
                assert(buf@.take(i + 1).drop_last() =~= buf@.take(i as int));
            }
            let k: usize = ((c ^ (b as u32)) & 0xff) as usize;
            c = CRC::CRC_TABLE[k] ^ (c >> 8);
            i += 1;
        }
        proof {
            assert(buf@.take(i as int) =~= buf@);
            lemma_fold_bytes_concat(ALL_ONES, self.fed@, buf@);
        }
        *self = CRC { c, fed: Ghost(self.fed@ + buf@) };
    }

    /// The checksum of everything folded in so far.
    pub fn value(&self) -> (r: u32)
        ensures
            r == crc32(self@),
    {
        proof {
            use_type_invariant(self);
        }
        self.c ^ ALL_ONES
    }
}

} // verus!
