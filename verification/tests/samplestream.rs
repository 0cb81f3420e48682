use aurora::buffers::MemoryBuffer;
use aurora::bytestream::Read;
use aurora::samples::Sample;
use aurora::samplestream::SampleStream;
use aurora::types::StreamType;

#[test]
fn reads_come_out_of_the_queued_sample() {
    let mut stream = SampleStream::new();
    let mut sample = Sample::new(StreamType::BinaryStream);
    sample.add_buffer(MemoryBuffer::from_bytes(vec![10, 20, 30, 40]));
    stream.enqueue_sample(sample);

    assert_eq!(stream.read(2).unwrap(), vec![10, 20]);
    assert_eq!(stream.read(2).unwrap(), vec![30, 40]);
    // Past the buffer's end the read is refused.
    assert!(stream.read(1).is_err());
}

#[test]
fn an_empty_stream_reports_the_end() {
    let mut stream = SampleStream::new();
    assert!(stream.read(4).is_err());
}
