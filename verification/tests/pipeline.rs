use aurora::bytestream::ByteStream;
use aurora::events::{Event, EventType};
use aurora::fault::Fault;
use aurora::sink::WAVSink;
use aurora::types::{AudioSubtype, Endian, PCMFormat, SampleType, StreamType};
use aurora::pcm::PCMTransform;
use aurora::wavsource::{WAVSource, WAVStreamSource};

fn push_u16_le(v: &mut Vec<u8>, x: u16) {
    v.extend_from_slice(&x.to_le_bytes());
}

fn push_u32_le(v: &mut Vec<u8>, x: u32) {
    v.extend_from_slice(&x.to_le_bytes());
}

fn make_wav(channels: u16, rate: u32, bits: u16, data: &[u8]) -> Vec<u8> {
    let block = channels * (bits / 8);
    let byte_rate = rate * block as u32;
    let mut v = Vec::new();
    v.extend_from_slice(b"RIFF");
    push_u32_le(&mut v, 38 + data.len() as u32);
    v.extend_from_slice(b"WAVE");
    v.extend_from_slice(b"fmt ");
    push_u32_le(&mut v, 18);
    push_u16_le(&mut v, 1);
    push_u16_le(&mut v, channels);
    push_u32_le(&mut v, rate);
    push_u32_le(&mut v, byte_rate);
    push_u16_le(&mut v, block);
    push_u16_le(&mut v, bits);
    push_u16_le(&mut v, 0);
    v.extend_from_slice(b"data");
    push_u32_le(&mut v, data.len() as u32);
    v.extend_from_slice(data);
    v
}

/// Drives source to sink with no transform, returning the finalized bytes.
fn pump_plain(input: Vec<u8>) -> Vec<u8> {
    let mut source = WAVSource::new();
    source.open(input).unwrap();
    let mut stream: WAVStreamSource = source.create_stream().unwrap();
    source.start().unwrap();

    let mut sink = WAVSink::new(ByteStream::new(Vec::new()));
    let stream_type = stream.descriptor().unwrap().stream_type;
    sink.stream_sink_from_index(0).unwrap().set_stream_type(stream_type).unwrap();

    loop {
        stream.request_sample(&mut source).unwrap();
        let mut finished = false;
        while let Some(event) = stream.dequeue_event() {
            match event.event_type {
                EventType::Sample(sample) => {
                    sink.stream_sink_from_index(0)
                        .unwrap()
                        .enqueue_stream_sink_event(Event::new(EventType::Sample(sample), Ok(())))
                        .unwrap();
                },
                EventType::EndOfStream => {
                    finished = true;
                },
                _ => panic!("unexpected event"),
            }
        }
        if finished {
            sink.finalize().unwrap();
            break;
        }
    }

    sink.stream.writer.data
}

#[test]
fn two_second_mono_file_round_trips_byte_identical() {
    // Two seconds of 44100 Hz mono 16-bit samples: a deterministic ramp.
    let frames = 2 * 44100;
    let mut data: Vec<u8> = Vec::with_capacity(frames * 2);
    for i in 0..frames {
        let v = ((i * 31) % 65536) as u16;
        data.extend_from_slice(&v.to_le_bytes());
    }
    let input = make_wav(1, 44100, 16, &data);

    let output = pump_plain(input.clone());

    // The data chunk size equals the input's and the samples are identical.
    assert_eq!(output.len(), input.len());
    assert_eq!(&output[42..46], &(data.len() as u32).to_le_bytes());
    assert_eq!(&output[46..], &data[..]);
    // The whole file round-trips byte for byte.
    assert_eq!(output, input);
}

#[test]
fn empty_data_round_trips() {
    let input = make_wav(1, 8000, 16, &[]);
    let output = pump_plain(input.clone());
    assert_eq!(output, input);
}

#[test]
fn transform_to_float_preserves_the_sample_count() {
    let frames = 2 * 44100;
    let mut data: Vec<u8> = Vec::with_capacity(frames * 2);
    for i in 0..frames {
        let v = ((i * 7) % 65536) as u16;
        data.extend_from_slice(&v.to_le_bytes());
    }
    let input = make_wav(1, 44100, 16, &data);

    let mut source = WAVSource::new();
    source.open(input).unwrap();
    let mut stream = source.create_stream().unwrap();
    source.start().unwrap();

    let in_type = stream.descriptor().unwrap().stream_type;
    let audio_format = match in_type {
        StreamType::AudioStream(_, af) => af,
        _ => panic!("not audio"),
    };
    let out_type = StreamType::AudioStream(
        AudioSubtype::PCMStream(
            PCMFormat { sample_type: SampleType::Float(32), endian: Endian::LittleEndian },
        ),
        audio_format,
    );

    let mut transform = PCMTransform::new();
    transform.input_stream.stream_type = in_type;
    transform.output_stream.stream_type = out_type;
    let input_stream = transform.input_stream;
    let output_stream = transform.output_stream;
    transform.add_stream(&input_stream).unwrap();
    transform.add_stream(&output_stream).unwrap();

    let mut sink = WAVSink::new(ByteStream::new(Vec::new()));
    sink.stream_sink_from_index(0).unwrap().set_stream_type(out_type).unwrap();

    loop {
        stream.request_sample(&mut source).unwrap();
        let mut finished = false;
        while let Some(event) = stream.dequeue_event() {
            match event.event_type {
                EventType::Sample(sample) => {
                    transform.process_input(&input_stream, sample).unwrap();
                    let out = transform.process_output(&output_stream).unwrap();
                    sink.stream_sink_from_index(0)
                        .unwrap()
                        .enqueue_stream_sink_event(Event::new(EventType::Sample(out), Ok(())))
                        .unwrap();
                },
                EventType::EndOfStream => {
                    finished = true;
                },
                _ => panic!("unexpected event"),
            }
        }
        if finished {
            sink.finalize().unwrap();
            break;
        }
    }

    let out = sink.stream.writer.data;
    // The format block announces IEEE float, thirty-two bits.
    assert_eq!(&out[20..22], &3u16.to_le_bytes());
    assert_eq!(&out[34..36], &32u16.to_le_bytes());
    // The sample count is preserved exactly: twice the bytes.
    let data_size = u32::from_le_bytes([out[42], out[43], out[44], out[45]]) as usize;
    assert_eq!(data_size, frames * 4);
    assert_eq!(out.len(), 46 + data_size);
    // Every sample is the float scaling of the input sample.
    for i in 0..frames {
        let v = i16::from_le_bytes([data[2 * i], data[2 * i + 1]]);
        let f = f32::from_le_bytes([
            out[46 + 4 * i],
            out[46 + 4 * i + 1],
            out[46 + 4 * i + 2],
            out[46 + 4 * i + 3],
        ]);
        assert_eq!(f, (v as f64 / 32768.0) as f32);
    }
}

#[test]
fn transform_backpressure_and_flush() {
    let mut transform = PCMTransform::new();
    let af = aurora::types::AudioFormat { sample_rate: 8000, channels: 1 };
    let ty = StreamType::AudioStream(
        AudioSubtype::PCMStream(
            PCMFormat { sample_type: SampleType::Signed(16), endian: Endian::LittleEndian },
        ),
        af,
    );
    transform.input_stream.stream_type = ty;
    transform.output_stream.stream_type = ty;
    let input_stream = transform.input_stream;
    let output_stream = transform.output_stream;

    // Nothing to produce before any input.
    assert_eq!(transform.process_output(&output_stream).err(), Some(Fault::BadState));

    let sample = aurora::samples::Sample::new(ty);
    transform.process_input(&input_stream, sample).unwrap();

    // A second input is refused while one is held.
    let second = aurora::samples::Sample::new(ty);
    assert_eq!(transform.process_input(&input_stream, second), Err(Fault::Busy));

    // Flush clears the slot.
    transform.process_message(aurora::pcm::Message::Flush).unwrap();
    assert_eq!(transform.process_output(&output_stream).err(), Some(Fault::BadState));
}

#[test]
fn sink_rejects_a_second_stream_type_and_other_indexes() {
    let mut sink = WAVSink::new(ByteStream::new(Vec::new()));
    assert!(sink.stream_sink_from_index(1).is_err());
    let ty = StreamType::AudioStream(
        AudioSubtype::PCMStream(
            PCMFormat { sample_type: SampleType::Signed(16), endian: Endian::LittleEndian },
        ),
        aurora::types::AudioFormat { sample_rate: 8000, channels: 1 },
    );
    sink.stream_sink_from_index(0).unwrap().set_stream_type(ty).unwrap();
    assert_eq!(
        sink.stream_sink_from_index(0).unwrap().set_stream_type(ty),
        Err(Fault::BadState)
    );
}

#[test]
fn sink_operations_after_shutdown_fail_with_shutdown() {
    let mut sink = WAVSink::new(ByteStream::new(Vec::new()));
    sink.shutdown().unwrap();
    assert_eq!(sink.finalize(), Err(Fault::Shutdown));
    assert_eq!(sink.shutdown(), Err(Fault::Shutdown));
    let stream = sink.stream_sink_from_index(0).unwrap();
    assert_eq!(
        stream.enqueue_stream_sink_event(Event::new(EventType::Unknown, Ok(()))),
        Err(Fault::Shutdown)
    );
    assert!(stream.dequeue_stream_sink_event().is_err());
    assert_eq!(
        stream.set_stream_type(StreamType::BinaryStream),
        Err(Fault::Shutdown)
    );
}
