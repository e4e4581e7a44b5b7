use png_codec::endian::{u32_from_be, u32_to_be};

#[test]
fn to_be_puts_most_significant_byte_first() {
    assert_eq!(u32_to_be(0x0102_0304), [1, 2, 3, 4]);
    assert_eq!(u32_to_be(13), [0, 0, 0, 13]);
    assert_eq!(u32_to_be(0), [0, 0, 0, 0]);
    assert_eq!(u32_to_be(u32::MAX), [255, 255, 255, 255]);
    assert_eq!(u32_to_be(0xAE42_6082), [0xAE, 0x42, 0x60, 0x82]);
}

#[test]
fn from_be_reads_most_significant_byte_first() {
    assert_eq!(u32_from_be(&[1, 2, 3, 4]), 0x0102_0304);
    assert_eq!(u32_from_be(&[0, 0, 0, 13]), 13);
    assert_eq!(u32_from_be(&[0, 0, 1, 0]), 256);
    assert_eq!(u32_from_be(&[255, 255, 255, 255]), u32::MAX);
    assert_eq!(u32_from_be(&[0x80, 0, 0, 0]), 0x8000_0000);
}

#[test]
fn be_round_trips() {
    for v in [0u32, 1, 255, 256, 65_535, 65_536, 0x00FF_FFFF, 0x0100_0000, 0xDEAD_BEEF, u32::MAX] {
        assert_eq!(u32_from_be(&u32_to_be(v)), v);
        assert_eq!(u32_to_be(v), v.to_be_bytes());
    }
}
