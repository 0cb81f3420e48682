use aurora::fault::Fault;
use aurora::source::State;
use aurora::types::{AudioSubtype, Endian, SampleType, StreamType};
use aurora::wavsource::WAVSource;

fn push_u16_le(v: &mut Vec<u8>, x: u16) {
    v.extend_from_slice(&x.to_le_bytes());
}

fn push_u32_le(v: &mut Vec<u8>, x: u32) {
    v.extend_from_slice(&x.to_le_bytes());
}

/// A canonical WAV file with an eighteen-byte format block.
fn make_wav(channels: u16, rate: u32, bits: u16, block: u16, byte_rate: u32, data: &[u8]) -> Vec<
    u8,
> {
    let mut v = Vec::new();
    v.extend_from_slice(b"RIFF");
    push_u32_le(&mut v, 38 + data.len() as u32);
    v.extend_from_slice(b"WAVE");
    v.extend_from_slice(b"fmt ");
    push_u32_le(&mut v, 18);
    push_u16_le(&mut v, 1);
    push_u16_le(&mut v, channels);
    push_u32_le(&mut v, rate);
    push_u32_le(&mut v, byte_rate);
    push_u16_le(&mut v, block);
    push_u16_le(&mut v, bits);
    push_u16_le(&mut v, 0);
    v.extend_from_slice(b"data");
    push_u32_le(&mut v, data.len() as u32);
    v.extend_from_slice(data);
    v
}

#[test]
fn open_accepts_a_conforming_file() {
    let data = vec![0u8; 8];
    let file = make_wav(1, 8000, 16, 2, 16000, &data);
    let mut source = WAVSource::new();
    assert!(source.open(file).is_ok());

    let stream = source.create_stream().unwrap();
    match stream.descriptor.stream_type {
        StreamType::AudioStream(AudioSubtype::PCMStream(pcm), af) => {
            assert_eq!(pcm.sample_type, SampleType::Signed(16));
            assert_eq!(pcm.endian, Endian::LittleEndian);
            assert_eq!(af.sample_rate, 8000);
            assert_eq!(af.channels, 1);
        },
        _ => panic!("not an audio stream"),
    }
}

#[test]
fn open_rejects_a_bad_block_align() {
    // block_align must equal channels * (bits / 8): 1 * 2 here, not 3.
    let file = make_wav(1, 8000, 16, 3, 24000, &[0u8; 6]);
    let mut source = WAVSource::new();
    assert_eq!(source.open(file), Err(Fault::BadBlockAlign));
    // The failure shuts the source down.
    assert_eq!(source.start(), Err(Fault::Shutdown));
}

#[test]
fn open_rejects_a_bad_byte_rate() {
    // average_bytes_per_second must equal rate * block_align: 16000, not 999.
    let file = make_wav(1, 8000, 16, 2, 999, &[0u8; 4]);
    let mut source = WAVSource::new();
    assert_eq!(source.open(file), Err(Fault::BadByteRate));
}

#[test]
fn open_rejects_bad_channels_and_bits() {
    let file = make_wav(3, 8000, 16, 6, 48000, &[0u8; 6]);
    let mut source = WAVSource::new();
    assert_eq!(source.open(file), Err(Fault::UnsupportedChannels));

    let file = make_wav(1, 8000, 12, 2, 16000, &[0u8; 4]);
    let mut source = WAVSource::new();
    assert_eq!(source.open(file), Err(Fault::UnsupportedBits));
}

#[test]
fn open_twice_is_refused() {
    let data = vec![0u8; 4];
    let file = make_wav(1, 8000, 16, 2, 16000, &data);
    let mut source = WAVSource::new();
    assert!(source.open(file.clone()).is_ok());
    assert_eq!(source.open(file), Err(Fault::BadState));
}

#[test]
fn every_operation_after_shutdown_fails_with_shutdown() {
    let data = vec![0u8; 4];
    let file = make_wav(1, 8000, 16, 2, 16000, &data);
    let mut source = WAVSource::new();
    source.open(file).unwrap();
    let mut stream = source.create_stream().unwrap();

    assert!(source.shutdown().is_ok());

    assert_eq!(source.start(), Err(Fault::Shutdown));
    assert_eq!(source.pause(), Err(Fault::Shutdown));
    assert_eq!(source.stop(), Err(Fault::Shutdown));
    assert_eq!(source.shutdown(), Err(Fault::Shutdown));
    assert_eq!(source.characteristics().err(), Some(Fault::Shutdown));
    assert!(source.presentation_descriptor().is_err());
    assert!(source.dequeue_event().is_err());
    assert_eq!(source.create_stream().err(), Some(Fault::Shutdown));
    // The stream notices the released parser.
    assert_eq!(stream.request_sample(&mut source), Err(Fault::BadState));
}

#[test]
fn pause_only_from_started() {
    let mut source = WAVSource::new();
    assert_eq!(source.pause(), Err(Fault::BadState));
    assert!(source.start().is_ok());
    assert_eq!(source.state, State::Started);
    assert!(source.pause().is_ok());
    assert_eq!(source.state, State::Paused);
    assert!(source.stop().is_ok());
    assert_eq!(source.state, State::Stopped);
}
