use aurora::buffers::{Buffer, MemoryBuffer};
use aurora::samples::{Sample, SampleQueue};
use aurora::source::{PresentationDescriptor, StreamDescriptor};
use aurora::types::StreamType;

#[test]
fn presentation_descriptor_tracks_selection() {
    let mut pd = PresentationDescriptor::new();
    assert_eq!(pd.count(), 0);
    pd.add_stream(StreamDescriptor::new(false, 0, StreamType::BinaryStream));
    pd.add_stream(StreamDescriptor::new(false, 1, StreamType::BinaryStream));
    assert_eq!(pd.count(), 2);

    pd.select_stream(1);
    assert!(!pd.stream(0).selected);
    assert!(pd.stream(1).selected);
    pd.deselect_stream(1);
    assert!(!pd.stream(1).selected);
    assert_eq!(pd.stream(1).identifier, 1);
}

#[test]
fn samples_carry_buffers_in_order() {
    let mut sample = Sample::new(StreamType::BinaryStream);
    assert_eq!(sample.length(), 0);
    sample.add_buffer(MemoryBuffer::from_bytes(vec![1, 2]));
    sample.add_buffer(MemoryBuffer::new(3));
    assert_eq!(sample.length(), 2);
    assert_eq!(sample.buffer(0).bytes(), &vec![1, 2]);
    assert_eq!(sample.buffer(1).bytes(), &vec![0, 0, 0]);
    assert_eq!(sample.buffer(1).get_current_length(), 3);
    assert_eq!(sample.buffer(1).get_allocated_length(), 3);
    sample.remove_all_buffers();
    assert_eq!(sample.length(), 0);
}

#[test]
fn sample_queue_is_fifo() {
    let mut q = SampleQueue::new();
    assert!(q.dequeue_sample().is_none());
    let mut a = Sample::new(StreamType::BinaryStream);
    a.add_buffer(MemoryBuffer::from_bytes(vec![1]));
    let mut b = Sample::new(StreamType::BinaryStream);
    b.add_buffer(MemoryBuffer::from_bytes(vec![2]));
    q.enqueue_sample(a);
    q.enqueue_sample(b);
    assert_eq!(q.dequeue_sample().unwrap().buffer(0).bytes(), &vec![1]);
    assert_eq!(q.dequeue_sample().unwrap().buffer(0).bytes(), &vec![2]);
    assert!(q.dequeue_sample().is_none());
}

#[test]
fn riff_chunks_know_whether_they_are_lists() {
    let chunk = aurora::riff::RIFFChunk { fourcc: u32::from_be_bytes(*b"LIST"), size: 0 };
    assert!(chunk.is_list());
    let chunk = aurora::riff::RIFFChunk { fourcc: u32::from_be_bytes(*b"data"), size: 0 };
    assert!(!chunk.is_list());
    let list = aurora::riff::RIFFList {
        fourcc: u32::from_be_bytes(*b"LIST"),
        size: 4,
        list_type: u32::from_be_bytes(*b"INFO"),
    };
    assert!(list.is_list());
}
