use aurora::fault::Fault;
use aurora::types::{AudioSubtype, SampleType, StreamType};
use aurora::wavsource::WAVSource;

fn push_u16_le(v: &mut Vec<u8>, x: u16) {
    v.extend_from_slice(&x.to_le_bytes());
}

fn push_u32_le(v: &mut Vec<u8>, x: u32) {
    v.extend_from_slice(&x.to_le_bytes());
}

fn header(riff_size: u32) -> Vec<u8> {
    let mut v = Vec::new();
    v.extend_from_slice(b"RIFF");
    push_u32_le(&mut v, riff_size);
    v.extend_from_slice(b"WAVE");
    v
}

fn fmt_block(v: &mut Vec<u8>, tag: u16, channels: u16, rate: u32, byte_rate: u32, block: u16, bits: u16) {
    v.extend_from_slice(b"fmt ");
    push_u32_le(v, 18);
    push_u16_le(v, tag);
    push_u16_le(v, channels);
    push_u32_le(v, rate);
    push_u32_le(v, byte_rate);
    push_u16_le(v, block);
    push_u16_le(v, bits);
    push_u16_le(v, 0);
}

fn data_chunk(v: &mut Vec<u8>, data: &[u8]) {
    v.extend_from_slice(b"data");
    push_u32_le(v, data.len() as u32);
    v.extend_from_slice(data);
}

#[test]
fn a_container_that_is_not_wave_is_refused() {
    let mut v = Vec::new();
    v.extend_from_slice(b"RIFF");
    push_u32_le(&mut v, 12);
    v.extend_from_slice(b"AVI ");
    v.extend_from_slice(b"fmt ");
    push_u32_le(&mut v, 0);
    let mut source = WAVSource::new();
    assert_eq!(source.open(v), Err(Fault::WrongContainerType));
}

#[test]
fn an_unknown_format_tag_is_refused() {
    let mut v = header(38 + 4);
    fmt_block(&mut v, 2, 1, 8000, 16000, 2, 16);
    data_chunk(&mut v, &[0u8; 4]);
    let mut source = WAVSource::new();
    assert_eq!(source.open(v), Err(Fault::UnsupportedFormat));
}

#[test]
fn a_second_format_block_is_a_caller_error() {
    let mut v = header(38 + 26 + 4);
    fmt_block(&mut v, 1, 1, 8000, 16000, 2, 16);
    fmt_block(&mut v, 1, 1, 8000, 16000, 2, 16);
    data_chunk(&mut v, &[0u8; 4]);
    let mut source = WAVSource::new();
    assert_eq!(source.open(v), Err(Fault::Precondition));
}

#[test]
fn a_container_without_a_data_chunk_runs_out() {
    // The container holds just the format chunk: 4 + 8 + 18 bytes past the
    // size field.
    let mut v = header(30);
    fmt_block(&mut v, 1, 1, 8000, 16000, 2, 16);
    let mut source = WAVSource::new();
    assert_eq!(source.open(v), Err(Fault::EndOfContainer));
}

#[test]
fn an_extensible_format_block_is_read() {
    // A forty-byte extensible block whose sub-format names integer PCM.
    let data = [1u8, 2, 3, 4];
    let mut v = header(12 + 8 + 40 + 8 + 4 - 8);
    v.extend_from_slice(b"fmt ");
    push_u32_le(&mut v, 40);
    push_u16_le(&mut v, 0xFFFE);
    push_u16_le(&mut v, 2);
    push_u32_le(&mut v, 44100);
    push_u32_le(&mut v, 176400);
    push_u16_le(&mut v, 4);
    push_u16_le(&mut v, 16);
    push_u16_le(&mut v, 22);
    push_u16_le(&mut v, 16);
    push_u32_le(&mut v, 3);
    v.extend_from_slice(&[0x01, 0x00]);
    v.extend_from_slice(&[0u8; 14]);
    data_chunk(&mut v, &data);

    let mut source = WAVSource::new();
    assert!(source.open(v).is_ok());
    let stream = source.create_stream().unwrap();
    match stream.descriptor.stream_type {
        StreamType::AudioStream(AudioSubtype::PCMStream(pcm), af) => {
            assert_eq!(pcm.sample_type, SampleType::Signed(16));
            assert_eq!(af.channels, 2);
            assert_eq!(af.sample_rate, 44100);
        },
        _ => panic!("not an audio stream"),
    }
}

#[test]
fn requesting_past_the_end_reports_end_of_stream() {
    let data = [1u8, 2, 3, 4];
    let mut v = header(38 + 4);
    fmt_block(&mut v, 1, 1, 8000, 16000, 2, 16);
    data_chunk(&mut v, &data);
    let mut source = WAVSource::new();
    source.open(v).unwrap();
    let mut stream = source.create_stream().unwrap();
    source.start().unwrap();
    // One request drains the four bytes and announces the end.
    stream.request_sample(&mut source).unwrap();
    assert_eq!(stream.request_sample(&mut source), Err(Fault::EndOfStream));
}

#[test]
fn paused_sources_defer_samples_to_the_stream_queue() {
    let data = [1u8, 2, 3, 4];
    let mut v = header(38 + 4);
    fmt_block(&mut v, 1, 1, 8000, 16000, 2, 16);
    data_chunk(&mut v, &data);
    let mut source = WAVSource::new();
    source.open(v).unwrap();
    let mut stream = source.create_stream().unwrap();
    source.start().unwrap();
    source.pause().unwrap();
    stream.request_sample(&mut source).unwrap();
    // The sample waits on the internal queue; no event was delivered.
    assert!(stream.dequeue_event().is_none());
    assert_eq!(stream.sample_queue.samples.len(), 1);
    assert_eq!(stream.sample_queue.samples[0].buffers[0].data, data);
}

#[test]
fn transform_rejects_foreign_stream_registrations() {
    let mut transform = aurora::pcm::PCMTransform::new();
    let foreign = aurora::pcm::TransformStream {
        identifier: 7,
        direction: aurora::pcm::Direction::InputStream,
        stream_type: StreamType::BinaryStream,
    };
    assert_eq!(transform.add_stream(&foreign), Err(Fault::Precondition));
    let output_stream = transform.output_stream;
    let sample = aurora::samples::Sample::new(StreamType::BinaryStream);
    // Input handed to the output stream is a caller error.
    assert_eq!(
        transform.process_input(&output_stream, sample),
        Err(Fault::Precondition)
    );
}
