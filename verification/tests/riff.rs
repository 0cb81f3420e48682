use aurora::bytestream::ByteStream;
use aurora::fault::Fault;
use aurora::riff::RIFFParser;

const FOURCC_RIFF: u32 = 0x52494646;

fn push_fourcc(v: &mut Vec<u8>, cc: &[u8; 4]) {
    v.extend_from_slice(cc);
}

fn push_u32_le(v: &mut Vec<u8>, x: u32) {
    v.extend_from_slice(&x.to_le_bytes());
}

/// A RIFF container with three chunks: "one." (2 bytes), "two." (4 bytes),
/// "data" (2 bytes).
fn container() -> Vec<u8> {
    let mut v = Vec::new();
    push_fourcc(&mut v, b"RIFF");
    push_u32_le(&mut v, 4 + 8 + 2 + 8 + 4 + 8 + 2);
    push_fourcc(&mut v, b"WAVE");
    push_fourcc(&mut v, b"one.");
    push_u32_le(&mut v, 2);
    v.extend_from_slice(&[0xAA, 0xBB]);
    push_fourcc(&mut v, b"two.");
    push_u32_le(&mut v, 4);
    v.extend_from_slice(&[1, 2, 3, 4]);
    push_fourcc(&mut v, b"data");
    push_u32_le(&mut v, 2);
    v.extend_from_slice(&[9, 8]);
    v
}

#[test]
fn traversal_visits_every_chunk_once_in_order_and_terminates() {
    let mut parser = RIFFParser::new(ByteStream::new(container()), FOURCC_RIFF, 0).unwrap();

    assert_eq!(parser.current_chunk.fourcc, u32::from_be_bytes(*b"one."));
    assert_eq!(parser.current_chunk.size, 2);
    let first_offset = parser.current_chunk_offset;

    parser.move_to_next_chunk().unwrap();
    assert_eq!(parser.current_chunk.fourcc, u32::from_be_bytes(*b"two."));
    assert_eq!(parser.current_chunk.size, 4);
    assert!(parser.current_chunk_offset > first_offset);
    let second_offset = parser.current_chunk_offset;

    parser.move_to_next_chunk().unwrap();
    assert_eq!(parser.current_chunk.fourcc, u32::from_be_bytes(*b"data"));
    assert_eq!(parser.current_chunk.size, 2);
    assert!(parser.current_chunk_offset > second_offset);

    // One step past the last chunk ends the traversal.
    assert_eq!(parser.move_to_next_chunk(), Err(Fault::EndOfContainer));
}

#[test]
fn read_data_consumes_and_respects_the_chunk_bound() {
    let mut parser = RIFFParser::new(ByteStream::new(container()), FOURCC_RIFF, 0).unwrap();
    assert_eq!(parser.bytes_remaining, 2);
    let bytes = parser.read_data_from_chunk(2).unwrap();
    assert_eq!(bytes, vec![0xAA, 0xBB]);
    assert_eq!(parser.bytes_remaining, 0);
    assert_eq!(parser.read_data_from_chunk(1), Err(Fault::OutOfRange));
}

#[test]
fn odd_offset_is_rejected() {
    assert_eq!(
        RIFFParser::new(ByteStream::new(container()), FOURCC_RIFF, 1).err(),
        Some(Fault::BadAlignment)
    );
}

#[test]
fn wrong_identifier_is_rejected() {
    let mut bytes = container();
    bytes[0] = b'X';
    assert_eq!(
        RIFFParser::new(ByteStream::new(bytes), FOURCC_RIFF, 0).err(),
        Some(Fault::IdMismatch)
    );
}

#[test]
fn truncated_container_is_rejected() {
    let bytes = vec![b'R', b'I', b'F', b'F', 0, 0];
    assert_eq!(
        RIFFParser::new(ByteStream::new(bytes), FOURCC_RIFF, 0).err(),
        Some(Fault::Truncated)
    );
}
