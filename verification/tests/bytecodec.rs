use aurora::bytestream::{ByteStream, Read, Seek, Write};
use aurora::bytecodec::{ReadCore, WriteCore};
use aurora::byteswap::ByteSwap;
use aurora::events::{Event, EventQueue, EventType};

#[test]
fn typed_reads_decode_what_typed_writes_encoded() {
    let mut stream = ByteStream::new(Vec::new());
    stream.write_u16_le(0x1234).unwrap();
    stream.write_u32_le(0xDEADBEEF).unwrap();
    stream.write_u16_be(0x5678).unwrap();
    stream.write_u32_be(0xCAFEBABE).unwrap();
    stream.write_fourcc(u32::from_be_bytes(*b"data")).unwrap();

    stream.seek_from_beginning(0).unwrap();
    assert_eq!(stream.read_u16_le().unwrap(), 0x1234);
    assert_eq!(stream.read_u32_le().unwrap(), 0xDEADBEEF);
    assert_eq!(stream.read_u16_be().unwrap(), 0x5678);
    assert_eq!(stream.read_u32_be().unwrap(), 0xCAFEBABE);
    assert_eq!(stream.read_fourcc().unwrap(), u32::from_be_bytes(*b"data"));
    assert!(stream.read_u8_be().is_err());
}

#[test]
fn writes_zero_fill_a_seek_gap() {
    let mut stream = ByteStream::new(Vec::new());
    stream.seek_from_beginning(4).unwrap();
    stream.write(&[7, 8]).unwrap();
    assert_eq!(stream.data, vec![0, 0, 0, 0, 7, 8]);
    stream.seek_from_beginning(1).unwrap();
    stream.write(&[9]).unwrap();
    assert_eq!(stream.data, vec![0, 9, 0, 0, 7, 8]);
}

#[test]
fn partial_reads_report_what_was_left() {
    let mut stream = ByteStream::new(vec![1, 2, 3]);
    assert_eq!(stream.read(2).unwrap(), vec![1, 2]);
    assert!(stream.read(5).is_err());
}

#[test]
fn byte_swaps_reverse_byte_order() {
    assert_eq!(0x1234u16.to_big_endian(), 0x3412);
    assert_eq!(0x12345678u32.to_big_endian(), 0x78563412);
    assert_eq!(0x0102030405060708u64.to_big_endian(), 0x0807060504030201);
    assert_eq!((-2i16).to_big_endian(), i16::from_le_bytes((-2i16).to_be_bytes()));
    assert_eq!(0xABu8.to_big_endian(), 0xAB);
    assert_eq!(0x1234u16.to_little_endian(), 0x1234);
}

#[test]
fn event_queue_is_fifo() {
    let mut q = EventQueue::new();
    assert!(q.dequeue_event().is_none());
    q.enqueue_event(Event::new(EventType::StreamStarted, Ok(())));
    q.enqueue_event(Event::new(EventType::EndOfStream, Ok(())));
    let first = q.dequeue_event().unwrap();
    assert!(matches!(first.event_type, EventType::StreamStarted));
    let second = q.dequeue_event().unwrap();
    assert!(matches!(second.event_type, EventType::EndOfStream));
    assert!(q.dequeue_event().is_none());
}
