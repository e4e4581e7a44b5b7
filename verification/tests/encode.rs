use png_codec::chunk::Chunk;
use png_codec::error::PngError;
use png_codec::png::Png;

/// A picture of one transparent pixel.
const ONE_PIXEL: [u8; 67] = [
    137, 80, 78, 71, 13, 10, 26, 10, // signature
    0, 0, 0, 13, 73, 72, 68, 82, 0, 0, 0, 1, 0, 0, 0, 1, 8, 6, 0, 0, 0, 31, 21, 196, 137, // IHDR
    0, 0, 0, 10, 73, 68, 65, 84, 120, 156, 99, 0, 1, 0, 0, 5, 0, 1, 13, 10, 45, 180, // IDAT
    0, 0, 0, 0, 73, 69, 78, 68, 174, 66, 96, 130, // IEND
];

fn chunk(kind: &str, data: &[u8]) -> Chunk {
    Chunk { kind: kind.to_string(), length: data.len() as u32, data: data.to_vec(), crc: 0 }
}

fn end_chunk() -> Chunk {
    Chunk { kind: "IEND".to_string(), length: 0, data: vec![], crc: 0xAE42_6082 }
}

fn encoded(chunks: &Vec<Chunk>) -> Vec<u8> {
    let mut out = Vec::new();
    Png::encode(&mut out, chunks).unwrap();
    out
}

#[test]
fn round_trip_of_one_pixel_picture() {
    let chunks = Png::decode(&ONE_PIXEL).unwrap();
    assert_eq!(encoded(&chunks), ONE_PIXEL.to_vec());
}

#[test]
fn round_trip_drops_what_follows_the_end_chunk() {
    let mut bytes = ONE_PIXEL.to_vec();
    bytes.extend_from_slice(b"trailing");
    let chunks = Png::decode(&bytes).unwrap();
    assert_eq!(encoded(&chunks), ONE_PIXEL.to_vec());
}

#[test]
fn decode_undoes_encode() {
    let chunks = vec![
        Chunk::new_text("Title", "a\r\nb").unwrap(),
        Chunk::new_text("Software", "png_codec").unwrap(),
        end_chunk(),
    ];
    let bytes = encoded(&chunks);
    assert_eq!(Png::decode(&bytes).unwrap(), chunks);
}

#[test]
fn encode_nothing_writes_the_signature() {
    assert_eq!(encoded(&vec![]), vec![137, 80, 78, 71, 13, 10, 26, 10]);
}

#[test]
fn encode_end_chunk() {
    assert_eq!(
        encoded(&vec![end_chunk()]),
        vec![137, 80, 78, 71, 13, 10, 26, 10, 0, 0, 0, 0, 73, 69, 78, 68, 174, 66, 96, 130]
    );
}

#[test]
fn encode_appends_to_what_the_output_holds() {
    let mut out = vec![1, 2, 3];
    assert_eq!(Png::encode(&mut out, &vec![end_chunk()]), Ok(()));
    assert_eq!(
        out,
        vec![1, 2, 3, 137, 80, 78, 71, 13, 10, 26, 10, 0, 0, 0, 0, 73, 69, 78, 68, 174, 66, 96, 130]
    );
}

#[test]
fn encode_recomputes_length_and_checksum() {
    let wrong = Chunk {
        kind: "IHDR".to_string(),
        length: 9999,
        data: vec![0, 0, 0, 1, 0, 0, 0, 1, 8, 6, 0, 0, 0],
        crc: 0xDEAD_BEEF,
    };
    let bytes = encoded(&vec![wrong]);
    assert_eq!(bytes, ONE_PIXEL[..33].to_vec());
}

#[test]
fn zero_length_chunk_round_trips() {
    let bytes = encoded(&vec![chunk("tRNS", b""), end_chunk()]);
    assert_eq!(bytes.len(), 8 + 12 + 12);
    // The checksum of the four type bytes alone.
    assert_eq!(&bytes[8..20], &[0, 0, 0, 0, b't', b'R', b'N', b'S', 0x36, 0xB9, 0x70, 0xCC][..]);
    let chunks = Png::decode(&bytes).unwrap();
    assert_eq!(chunks.len(), 2);
    assert_eq!(chunks[0].kind, "tRNS");
    assert_eq!(chunks[0].length, 0);
    assert!(chunks[0].data.is_empty());
    assert_eq!(chunks[0].crc, 0x36B9_70CC);
    assert_eq!(encoded(&chunks), bytes);
}

#[test]
fn encode_rejects_type_that_is_not_four_bytes() {
    for kind in ["", "I", "IEN", "IENDx", "\u{e9}\u{e9}\u{e9}\u{e9}", "ab\u{e9}x"] {
        let mut out = Vec::new();
        let r = Png::encode(&mut out, &vec![chunk(kind, b"abc")]);
        assert_eq!(r, Err(PngError::InvalidChunkType));
    }
}

#[test]
fn encode_counts_the_bytes_of_the_type() {
    // Two letters and one two-byte character are four bytes.
    let bytes = encoded(&vec![chunk("ab\u{e9}", b""), end_chunk()]);
    assert_eq!(&bytes[12..16], &[b'a', b'b', 0xC3, 0xA9][..]);
    let chunks = Png::decode(&bytes).unwrap();
    assert_eq!(chunks[0].kind, "ab\u{e9}");
}

#[test]
fn failed_encode_has_written_up_to_the_length_of_the_bad_chunk() {
    let chunks = vec![chunk("IHDR", b"abc"), chunk("TOOLONG", b"12345"), end_chunk()];
    let mut out = Vec::new();
    assert_eq!(Png::encode(&mut out, &chunks), Err(PngError::InvalidChunkType));
    let mut expected = encoded(&vec![chunk("IHDR", b"abc")]);
    expected.extend_from_slice(&[0, 0, 0, 5]);
    assert_eq!(out, expected);
}

#[test]
fn encode_does_not_ask_for_an_end_chunk() {
    let bytes = encoded(&vec![chunk("IHDR", b"abc")]);
    assert_eq!(bytes.len(), 8 + 12 + 3);
    assert_eq!(Png::decode(&bytes), Err(PngError::ShortRead));
}

#[test]
fn insert_text_chunk_and_reencode() {
    let mut chunks = Png::decode(&ONE_PIXEL).unwrap();
    chunks.insert(1, Chunk::new_text("Comment", "hello").unwrap());
    let bytes = encoded(&chunks);
    assert_eq!(bytes.len(), ONE_PIXEL.len() + 12 + 13);
    assert_eq!(&bytes[..33], &ONE_PIXEL[..33]);
    assert_eq!(
        &bytes[33..58],
        &[
            0, 0, 0, 13, b't', b'E', b'X', b't', b'C', b'o', b'm', b'm', b'e', b'n', b't', 0, b'h',
            b'e', b'l', b'l', b'o', 0xE6, 0xFF, 0xAE, 0x24
        ][..]
    );
    assert_eq!(&bytes[58..], &ONE_PIXEL[33..]);
    assert_eq!(Png::decode(&bytes).unwrap(), chunks);
}

#[test]
fn large_payload_round_trips() {
    let data: Vec<u8> = (0..70_000u32).map(|i| (i % 251) as u8).collect();
    let bytes = encoded(&vec![chunk("IDAT", &data), end_chunk()]);
    assert_eq!(&bytes[8..12], &[0, 1, 0x11, 0x70][..]);
    let chunks = Png::decode(&bytes).unwrap();
    assert_eq!(chunks[0].length, 70_000);
    assert_eq!(chunks[0].data, data);
    assert_eq!(encoded(&chunks), bytes);
}
