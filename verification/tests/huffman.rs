use mp3_codec::bits::BitReader;
use mp3_codec::error::Error;
use mp3_codec::huffman::{l3_read_huffman_samples, Codebook, HuffmanTables};
use mp3_codec::sideinfo::{BlockType, GranuleChannel};

/// A tiny prefix code: 0 -> value 0x00, 10 -> 0x01, 11 -> 0x11.
fn small_codebook() -> Codebook {
    let codes: Vec<(u32, u8, u16)> = vec![(0b0, 1, 0x00), (0b10, 2, 0x01), (0b11, 2, 0x11)];
    Codebook::from_codes(&codes).unwrap()
}

/// Count1 table with all 16 values as 4-bit codes equal to their
/// complement, mirroring the fixed quadruple table B.
fn quad_codebook() -> Codebook {
    let mut codes: Vec<(u32, u8, u16)> = Vec::new();
    for v in 0..16u16 {
        codes.push(((v as u32) ^ 0xf, 4, v));
    }
    Codebook::from_codes(&codes).unwrap()
}

fn tables_with(slot1: Codebook, quad: Codebook) -> HuffmanTables {
    let mut big = Vec::new();
    big.push(Codebook::empty());
    big.push(slot1);
    for _ in 2..32 {
        big.push(Codebook::empty());
    }
    HuffmanTables::new(big, quad, Codebook::empty()).unwrap()
}

#[test]
fn codebook_decodes_exact_values() {
    let cb = small_codebook();
    // Bits: 0 | 10 | 11 | 0 -> values 0x00, 0x01, 0x11, 0x00.
    let data = [0b0101_1000u8];
    let mut bs = BitReader::new(&data);
    assert_eq!(cb.decode(&mut bs, 32).unwrap(), (0x00, 1));
    assert_eq!(cb.decode(&mut bs, 32).unwrap(), (0x01, 2));
    assert_eq!(cb.decode(&mut bs, 32).unwrap(), (0x11, 2));
    assert_eq!(cb.decode(&mut bs, 32).unwrap(), (0x00, 1));
}

#[test]
fn codebook_rejects_over_budget_and_truncation() {
    let cb = small_codebook();
    // A two-bit code under a one-bit budget fails deterministically.
    let data = [0b1000_0000u8];
    let mut bs = BitReader::new(&data);
    assert!(matches!(cb.decode(&mut bs, 1), Err(Error::InvalidHuffmanCode)));
    // Running off the end of the data fails with exhaustion.
    let empty: [u8; 0] = [];
    let mut bs = BitReader::new(&empty);
    assert!(matches!(cb.decode(&mut bs, 32), Err(Error::BitstreamExhausted)));
}

#[test]
fn from_codes_rejects_conflicts() {
    // The second codeword is a prefix of the first.
    let codes: Vec<(u32, u8, u16)> = vec![(0b10, 2, 1), (0b1, 1, 2)];
    assert!(Codebook::from_codes(&codes).is_none());
    // Duplicate codewords collide.
    let codes: Vec<(u32, u8, u16)> = vec![(0b1, 1, 1), (0b1, 1, 2)];
    assert!(Codebook::from_codes(&codes).is_none());
}

#[test]
fn zero_part3_bits_yields_silence() {
    let mut ch = GranuleChannel::default();
    ch.big_values = 100;
    ch.region1_start = 36;
    ch.region2_start = 576;
    let tables = tables_with(small_codebook(), quad_codebook());
    let data = [0xFFu8; 8];
    let mut bs = BitReader::new(&data);
    let (buf, rzero) = l3_read_huffman_samples(&mut bs, &ch, 0, &tables).unwrap();
    assert_eq!(rzero, 0);
    assert_eq!(buf.len(), 576);
    assert!(buf.iter().all(|&v| v == 0));
}

#[test]
fn big_values_pair_with_signs() {
    // One big_value decoded through slot 1: code 11 -> (x, y) = (1, 1),
    // then a positive and a negative sign bit. part3_bits = 4 matches the
    // bits consumed exactly, so count1 is not entered.
    let mut ch = GranuleChannel::default();
    ch.big_values = 1;
    ch.table_select = [1, 1, 1];
    ch.region1_start = 36;
    ch.region2_start = 576;
    ch.block_type = BlockType::Long;
    let tables = tables_with(small_codebook(), quad_codebook());
    // Bits: 11 (code), 0 (positive), 1 (negative).
    let data = [0b1101_0000u8];
    let mut bs = BitReader::new(&data);
    let (buf, rzero) = l3_read_huffman_samples(&mut bs, &ch, 4, &tables).unwrap();
    assert_eq!(rzero, 2);
    assert_eq!(buf[0], 1);
    assert_eq!(buf[1], -1);
    assert!(buf[2..].iter().all(|&v| v == 0));
    // Exactly part3_bits are consumed when nothing overruns.
    assert_eq!(bs.pos(), 4);
}

#[test]
fn count1_overrun_after_big_values() {
    // The pair uses 4 bits; a 7-bit budget lets the count1 loop start, and
    // its quadruple (code 0000 -> all four bits set, four positive signs)
    // overruns the budget. The quadruple is erased, the pair kept, and
    // more than the budget was consumed.
    let mut ch = GranuleChannel::default();
    ch.big_values = 1;
    ch.table_select = [1, 1, 1];
    ch.region1_start = 36;
    ch.region2_start = 576;
    ch.block_type = BlockType::Long;
    let tables = tables_with(small_codebook(), quad_codebook());
    let data = [0b1101_0000u8, 0b0000_0000];
    let mut bs = BitReader::new(&data);
    let (buf, rzero) = l3_read_huffman_samples(&mut bs, &ch, 7, &tables).unwrap();
    assert_eq!(rzero, 2);
    assert_eq!(buf[0], 1);
    assert_eq!(buf[1], -1);
    assert!(buf[2..].iter().all(|&v| v == 0));
    assert!(bs.pos() > 7);
}

#[test]
fn count1_quadruple() {
    // No big_values; one count1 codeword: value 0b1010 (code 0101) sets
    // samples 0 and 2, each followed by a sign bit (negative, positive).
    let mut ch = GranuleChannel::default();
    ch.big_values = 0;
    ch.region1_start = 36;
    ch.region2_start = 576;
    let tables = tables_with(small_codebook(), quad_codebook());
    // Bits: 0101 (code for value 0b1010), 1 (negative), 0 (positive).
    let data = [0b0101_1000u8];
    let mut bs = BitReader::new(&data);
    let (buf, rzero) = l3_read_huffman_samples(&mut bs, &ch, 6, &tables).unwrap();
    assert_eq!(rzero, 4);
    assert_eq!(buf[0], -1);
    assert_eq!(buf[1], 0);
    assert_eq!(buf[2], 1);
    assert_eq!(buf[3], 0);
    assert!(buf[4..].iter().all(|&v| v == 0));
}

#[test]
fn count1_overrun_is_unwound() {
    // part3_bits = 4 runs out inside the quadruple's sign bits: the loop
    // is allowed to finish the codeword, the overrun is detected, and the
    // four samples are erased.
    let mut ch = GranuleChannel::default();
    ch.big_values = 0;
    ch.region1_start = 36;
    ch.region2_start = 576;
    let tables = tables_with(small_codebook(), quad_codebook());
    let data = [0b0101_1000u8];
    let mut bs = BitReader::new(&data);
    let (buf, rzero) = l3_read_huffman_samples(&mut bs, &ch, 5, &tables).unwrap();
    assert_eq!(rzero, 0);
    assert!(buf.iter().all(|&v| v == 0));
    // The overrun consumed more than the 5-bit budget.
    assert!(bs.pos() > 5);
}
