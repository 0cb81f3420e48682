use aurora::bitstream::Bitstream;
use aurora::bytestream::ByteStream;

#[test]
fn bits_come_out_most_significant_first() {
    // 0b10110100 0b01100001
    let mut bs = Bitstream::new(ByteStream::new(vec![0xB4, 0x61]));
    assert_eq!(bs.read(1).unwrap(), 1);
    assert_eq!(bs.read(2).unwrap(), 0b01);
    assert_eq!(bs.read(5).unwrap(), 0b10100);
    assert_eq!(bs.read(8).unwrap(), 0x61);
    assert!(bs.read(1).is_err());
}

#[test]
fn reads_may_cross_byte_boundaries() {
    let mut bs = Bitstream::new(ByteStream::new(vec![0x12, 0x34, 0x56, 0x78, 0x9A]));
    assert_eq!(bs.read(4).unwrap(), 0x1);
    assert_eq!(bs.read(16).unwrap(), 0x2345);
    assert_eq!(bs.read(0).unwrap(), 0);
    assert_eq!(bs.read(20).unwrap(), 0x6789A);
}

#[test]
fn a_full_word_reads_back() {
    let mut bs = Bitstream::new(ByteStream::new(vec![0xDE, 0xAD, 0xBE, 0xEF]));
    assert_eq!(bs.read(32).unwrap(), 0xDEADBEEF);
}
