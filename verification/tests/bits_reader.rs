use mp3_codec::bits::BitReader;
use mp3_codec::error::Error;

#[test]
fn msb_first_reads() {
    let data = [0b1011_0011u8, 0b0100_0001];
    let mut bs = BitReader::new(&data);
    assert_eq!(bs.read_bit().unwrap(), true);
    assert_eq!(bs.read_bits_leq32(3).unwrap(), 0b011);
    assert_eq!(bs.read_bits_leq32(8).unwrap(), 0b0011_0100);
    assert_eq!(bs.pos(), 12);
    bs.ignore_bits(3).unwrap();
    assert_eq!(bs.read_bit().unwrap(), true);
    assert!(matches!(bs.read_bit(), Err(Error::BitstreamExhausted)));
}

#[test]
fn reads_past_end_fail_without_moving() {
    let data = [0xAAu8];
    let mut bs = BitReader::new(&data);
    bs.ignore_bits(6).unwrap();
    assert!(matches!(bs.read_bits_leq32(3), Err(Error::BitstreamExhausted)));
    assert_eq!(bs.pos(), 6);
    assert_eq!(bs.read_bits_leq32(2).unwrap(), 0b10);
}
