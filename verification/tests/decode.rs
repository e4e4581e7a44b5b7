use png_codec::chunk::Chunk;
use png_codec::error::PngError;
use png_codec::png::Png;

/// A picture of one transparent pixel.
const ONE_PIXEL: [u8; 67] = [
    137, 80, 78, 71, 13, 10, 26, 10, // signature
    0, 0, 0, 13, 73, 72, 68, 82, 0, 0, 0, 1, 0, 0, 0, 1, 8, 6, 0, 0, 0, 31, 21, 196, 137, // IHDR
    0, 0, 0, 10, 73, 68, 65, 84, 120, 156, 99, 0, 1, 0, 0, 5, 0, 1, 13, 10, 45, 180, // IDAT
    0, 0, 0, 0, 73, 69, 78, 68, 174, 66, 96, 130, // IEND
];

const SIGNATURE: [u8; 8] = [137, 80, 78, 71, 13, 10, 26, 10];
const IEND_RECORD: [u8; 12] = [0, 0, 0, 0, 73, 69, 78, 68, 174, 66, 96, 130];

/// The checksum worked out one bit at a time, without a table.
fn bitwise_checksum(bytes: &[u8]) -> u32 {
    let mut c: u32 = 0xFFFF_FFFF;
    for &b in bytes {
        c ^= b as u32;
        for _ in 0..8 {
            c = if c & 1 == 1 { (c >> 1) ^ 0xEDB8_8320 } else { c >> 1 };
        }
    }
    c ^ 0xFFFF_FFFF
}

fn record(kind: &[u8], data: &[u8]) -> Vec<u8> {
    let mut covered = kind.to_vec();
    covered.extend_from_slice(data);
    let mut out = (data.len() as u32).to_be_bytes().to_vec();
    out.extend_from_slice(&covered);
    out.extend_from_slice(&bitwise_checksum(&covered).to_be_bytes());
    out
}

fn stream(records: &[Vec<u8>]) -> Vec<u8> {
    let mut out = SIGNATURE.to_vec();
    for r in records {
        out.extend_from_slice(r);
    }
    out
}

#[test]
fn decode_one_pixel_picture() {
    let chunks = Png::decode(&ONE_PIXEL).unwrap();
    assert_eq!(chunks.len(), 3);
    assert_eq!(chunks[0].kind, "IHDR");
    assert_eq!(chunks[0].length, 13);
    assert_eq!(chunks[0].data, vec![0, 0, 0, 1, 0, 0, 0, 1, 8, 6, 0, 0, 0]);
    assert_eq!(chunks[0].crc, 0x1F15_C489);
    assert_eq!(chunks[1].kind, "IDAT");
    assert_eq!(chunks[1].length, 10);
    assert_eq!(chunks[1].data, vec![120, 156, 99, 0, 1, 0, 0, 5, 0, 1]);
    assert_eq!(chunks[1].crc, 0x0D0A_2DB4);
    assert_eq!(chunks[2].kind, "IEND");
    assert_eq!(chunks[2].length, 0);
    assert_eq!(chunks[2].data, Vec::<u8>::new());
    assert_eq!(chunks[2].crc, 0xAE42_6082);
}

#[test]
fn decode_signature_accepts_the_signature() {
    assert_eq!(Png::decode_signature(&SIGNATURE), Ok(()));
    assert_eq!(Png::decode_signature(&ONE_PIXEL), Ok(()));
    assert_eq!(Png::PNG_SIGNATURE, SIGNATURE);
}

#[test]
fn decode_signature_rejects_everything_else() {
    assert_eq!(Png::decode_signature(&[]), Err(PngError::MalformedSignature));
    assert_eq!(Png::decode_signature(&SIGNATURE[..7]), Err(PngError::MalformedSignature));
    for i in 0..8 {
        let mut wrong = ONE_PIXEL.to_vec();
        wrong[i] ^= 0x20;
        assert_eq!(Png::decode_signature(&wrong), Err(PngError::MalformedSignature));
    }
}

#[test]
fn signature_gate_whatever_follows() {
    let mut wrong = ONE_PIXEL.to_vec();
    wrong[0] = 0x88;
    assert_eq!(Png::decode(&wrong), Err(PngError::MalformedSignature));
    assert_eq!(Png::decode(&[]), Err(PngError::MalformedSignature));
    assert_eq!(Png::decode(b"GIF89a"), Err(PngError::MalformedSignature));
    assert_eq!(Png::decode(&ONE_PIXEL[..7]), Err(PngError::MalformedSignature));
    assert_eq!(Png::decode(&ONE_PIXEL[1..]), Err(PngError::MalformedSignature));
    // A JPEG header, then a flawless chunk sequence.
    let mut jpeg = vec![0xFF, 0xD8, 0xFF, 0xE0, 0, 16, 74, 70];
    jpeg.extend_from_slice(&ONE_PIXEL[8..]);
    assert_eq!(Png::decode(&jpeg), Err(PngError::MalformedSignature));
}

#[test]
fn sentinel_termination_ignores_trailing_garbage() {
    let mut bytes = ONE_PIXEL.to_vec();
    bytes.extend_from_slice(b"garbage that is no chunk at all");
    let chunks = Png::decode(&bytes).unwrap();
    assert_eq!(chunks.len(), 3);
    assert_eq!(chunks, Png::decode(&ONE_PIXEL).unwrap());

    // Even a further well-formed record is not read.
    let mut bytes = ONE_PIXEL.to_vec();
    bytes.extend_from_slice(&record(b"tEXt", b"K\0v"));
    assert_eq!(Png::decode(&bytes).unwrap().len(), 3);

    // Nor one byte.
    let mut bytes = ONE_PIXEL.to_vec();
    bytes.push(0);
    assert_eq!(Png::decode(&bytes).unwrap().len(), 3);
}

#[test]
fn decoding_stops_at_the_first_end_chunk() {
    let bytes = stream(&[IEND_RECORD.to_vec(), record(b"IHDR", b"late"), IEND_RECORD.to_vec()]);
    let chunks = Png::decode(&bytes).unwrap();
    assert_eq!(chunks.len(), 1);
    assert_eq!(chunks[0].kind, "IEND");
}

#[test]
fn stream_without_end_chunk_is_a_short_read() {
    assert_eq!(Png::decode(&SIGNATURE), Err(PngError::ShortRead));
    assert_eq!(Png::decode(&ONE_PIXEL[..55]), Err(PngError::ShortRead));
    let bytes = stream(&[record(b"IHDR", b"abc"), record(b"IDAT", b"")]);
    assert_eq!(Png::decode(&bytes), Err(PngError::ShortRead));
}

#[test]
fn every_truncation_of_a_stream_fails() {
    for n in 0..ONE_PIXEL.len() {
        let expected = if n < 8 { PngError::MalformedSignature } else { PngError::ShortRead };
        assert_eq!(Png::decode(&ONE_PIXEL[..n]), Err(expected));
    }
    assert!(Png::decode(&ONE_PIXEL).is_ok());
}

#[test]
fn checksum_rejection_of_every_flipped_bit() {
    assert!(Png::decode(&ONE_PIXEL).is_ok());
    // Records start at 8, 33 and 55; each begins with four bytes of length.
    let records = [(8usize, 13usize), (33, 10), (55, 0)];
    for (start, len) in records {
        for i in start + 4..start + 12 + len {
            for bit in 0..8 {
                let mut flipped = ONE_PIXEL.to_vec();
                flipped[i] ^= 1 << bit;
                let in_type = i < start + 8;
                let still_text = std::str::from_utf8(&flipped[start + 4..start + 8]).is_ok();
                let expected = if in_type && !still_text {
                    PngError::InvalidChunkType
                } else {
                    PngError::ChecksumMismatch
                };
                assert_eq!(Png::decode(&flipped), Err(expected));
            }
        }
    }
}

#[test]
fn checksum_rejection_in_type_payload_and_checksum() {
    // Type: 'I' becomes 'H'.
    let mut flipped = ONE_PIXEL.to_vec();
    flipped[12] ^= 1;
    assert_eq!(Png::decode(&flipped), Err(PngError::ChecksumMismatch));
    // Payload.
    let mut flipped = ONE_PIXEL.to_vec();
    flipped[16] ^= 0x80;
    assert_eq!(Png::decode(&flipped), Err(PngError::ChecksumMismatch));
    // Stored checksum.
    let mut flipped = ONE_PIXEL.to_vec();
    flipped[32] ^= 0x10;
    assert_eq!(Png::decode(&flipped), Err(PngError::ChecksumMismatch));
    // Type, top bit: no longer text.
    let mut flipped = ONE_PIXEL.to_vec();
    flipped[12] ^= 0x80;
    assert_eq!(Png::decode(&flipped), Err(PngError::InvalidChunkType));
}

#[test]
fn bad_checksum_aborts_and_nothing_is_skipped() {
    let mut bad = record(b"tEXt", b"K\0v");
    let last = bad.len() - 1;
    bad[last] ^= 1;
    let bytes = stream(&[record(b"IHDR", b"abc"), bad, IEND_RECORD.to_vec()]);
    assert_eq!(Png::decode(&bytes), Err(PngError::ChecksumMismatch));
}

#[test]
fn zero_length_chunk_decodes() {
    let rec = record(b"tRNS", b"");
    assert_eq!(rec.len(), 12);
    assert_eq!(&rec[8..], &bitwise_checksum(b"tRNS").to_be_bytes()[..]);
    let chunk = Png::decode_chunk(&rec).unwrap();
    assert_eq!(chunk.kind, "tRNS");
    assert_eq!(chunk.length, 0);
    assert!(chunk.data.is_empty());
    assert_eq!(chunk.crc, bitwise_checksum(b"tRNS"));

    let chunk = Png::decode_chunk(&IEND_RECORD).unwrap();
    assert_eq!(
        chunk,
        Chunk { kind: "IEND".to_string(), length: 0, data: vec![], crc: 0xAE42_6082 }
    );
}

#[test]
fn decode_chunk_reads_one_record() {
    let chunk = Png::decode_chunk(&ONE_PIXEL[8..]).unwrap();
    assert_eq!(chunk.kind, "IHDR");
    assert_eq!(chunk.length, 13);
    assert_eq!(chunk.data.len(), 13);
    assert_eq!(chunk.crc, 0x1F15_C489);
    let chunk = Png::decode_chunk(&ONE_PIXEL[33..]).unwrap();
    assert_eq!(chunk.kind, "IDAT");
}

#[test]
fn decode_chunk_short_reads() {
    let rec = record(b"IDAT", b"payload");
    for n in 0..rec.len() {
        assert_eq!(Png::decode_chunk(&rec[..n]), Err(PngError::ShortRead));
    }
    assert!(Png::decode_chunk(&rec).is_ok());
}

#[test]
fn decode_chunk_rejects_type_that_is_not_text() {
    let rec = record(&[0xFF, b'H', b'D', b'R'], b"abc");
    assert_eq!(Png::decode_chunk(&rec), Err(PngError::InvalidChunkType));
    // A type cut off inside a character.
    let rec = record(&[b'a', b'b', 0xC3, 0xA9], b"");
    assert!(Png::decode_chunk(&rec).is_ok());
    let rec = record(&[b'a', b'b', b'c', 0xC3], b"");
    assert_eq!(Png::decode_chunk(&rec), Err(PngError::InvalidChunkType));
    // An overlong encoding, a surrogate and a value beyond the last character.
    let rec = record(&[0xC0, 0x80, b'a', b'b'], b"");
    assert_eq!(Png::decode_chunk(&rec), Err(PngError::InvalidChunkType));
    let rec = record(&[0xED, 0xA0, 0x80, b'a'], b"");
    assert_eq!(Png::decode_chunk(&rec), Err(PngError::InvalidChunkType));
    let rec = record(&[0xF4, 0x90, 0x80, 0x80], b"");
    assert_eq!(Png::decode_chunk(&rec), Err(PngError::InvalidChunkType));
}

#[test]
fn decode_chunk_keeps_type_that_is_text_but_not_letters() {
    let rec = record(&[0xF0, 0x9F, 0x98, 0x80], b"x");
    let chunk = Png::decode_chunk(&rec).unwrap();
    assert_eq!(chunk.kind, "\u{1F600}");
    assert_eq!(chunk.kind.len(), 4);
    let rec = record(b"1234", b"");
    assert_eq!(Png::decode_chunk(&rec).unwrap().kind, "1234");
    let rec = record(&[0, 0, 0, 0], b"");
    assert_eq!(Png::decode_chunk(&rec).unwrap().kind, "\0\0\0\0");
}

#[test]
fn invalid_type_is_reported_before_a_missing_payload() {
    // Declares 100 bytes of payload and holds none, under a type that is not text.
    let bytes = [0, 0, 0, 100, 0xFF, 0xFF, 0xFF, 0xFF];
    assert_eq!(Png::decode_chunk(&bytes), Err(PngError::InvalidChunkType));
    let bytes = [0, 0, 0, 100, b'I', b'D', b'A', b'T'];
    assert_eq!(Png::decode_chunk(&bytes), Err(PngError::ShortRead));
}

#[test]
fn declared_length_beyond_the_stream_is_a_short_read() {
    let mut rec = record(b"IDAT", b"payload");
    rec[0] = 0xFF;
    rec[1] = 0xFF;
    rec[2] = 0xFF;
    rec[3] = 0xFF;
    assert_eq!(Png::decode_chunk(&rec), Err(PngError::ShortRead));
    let mut rec = record(b"IDAT", b"payload");
    rec[3] += 1;
    assert_eq!(Png::decode_chunk(&rec), Err(PngError::ShortRead));
}

#[test]
fn declared_length_short_of_the_payload_is_a_checksum_mismatch() {
    let mut rec = record(b"IDAT", b"payload");
    rec[3] -= 1;
    assert_eq!(Png::decode_chunk(&rec), Err(PngError::ChecksumMismatch));
}

#[test]
fn decode_all_chunks_starts_behind_the_signature() {
    let chunks = Png::decode_all_chunks(&ONE_PIXEL[8..]).unwrap();
    assert_eq!(chunks.len(), 3);
    // Read as a record, the signature declares a payload of two gigabytes.
    assert_eq!(Png::decode_all_chunks(&ONE_PIXEL), Err(PngError::ShortRead));
    assert_eq!(Png::decode_all_chunks(&[]), Err(PngError::ShortRead));
}

#[test]
fn decode_many_chunks_in_order() {
    let mut records = vec![record(b"IHDR", &[0; 13])];
    for i in 0..12u8 {
        records.push(record(b"tEXt", &[b'K', 0, b'a' + i]));
    }
    records.push(record(b"IDAT", &[7; 300]));
    records.push(IEND_RECORD.to_vec());
    let chunks = Png::decode(&stream(&records)).unwrap();
    assert_eq!(chunks.len(), 15);
    assert_eq!(chunks[0].kind, "IHDR");
    for i in 0..12u8 {
        assert_eq!(chunks[1 + i as usize].data, vec![b'K', 0, b'a' + i]);
    }
    assert_eq!(chunks[13].length, 300);
    assert_eq!(chunks[14].kind, "IEND");
}
