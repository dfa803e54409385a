use mp3_codec::bits::BitReader;
use mp3_codec::scalefacs::{l3_read_scale_factors_mpeg1, l3_read_scale_factors_mpeg2};
use mp3_codec::sideinfo::{BlockType, GranuleChannel};

fn push_bits(bits: &mut Vec<bool>, value: u32, n: u32) {
    for k in (0..n).rev() {
        bits.push((value >> k) & 1 == 1);
    }
}

fn to_bytes(bits: &[bool]) -> Vec<u8> {
    let mut out = vec![0u8; (bits.len() + 7) / 8];
    for (i, &b) in bits.iter().enumerate() {
        if b {
            out[i / 8] |= 1 << (7 - (i % 8));
        }
    }
    out
}

#[test]
fn mpeg1_long_block_scale_factors() {
    // scalefac_compress 7 selects (slen1, slen2) = (1, 3): 11 one-bit and
    // 10 three-bit scale factors, 41 bits in total.
    let mut ch = GranuleChannel::default();
    ch.scalefac_compress = 7;
    ch.block_type = BlockType::Long;

    let mut bits = Vec::new();
    for i in 0..11 {
        push_bits(&mut bits, (i % 2) as u32, 1);
    }
    for i in 0..10 {
        push_bits(&mut bits, (i % 8) as u32, 3);
    }
    let bytes = to_bytes(&bits);
    let mut bs = BitReader::new(&bytes);
    let scfsi = [false; 4];
    let gr0 = [0u8; 39];
    let n = l3_read_scale_factors_mpeg1(&mut bs, false, &scfsi, &gr0, &mut ch).unwrap();
    assert_eq!(n, 11 + 30);
    for i in 0..11 {
        assert_eq!(ch.scalefacs[i], (i % 2) as u8);
    }
    for i in 0..10 {
        assert_eq!(ch.scalefacs[11 + i], (i % 8) as u8);
    }
    // The untouched tail stays zero, and everything fits 4 bits.
    for i in 21..39 {
        assert_eq!(ch.scalefacs[i], 0);
    }
    for i in 0..39 {
        assert!(ch.scalefacs[i] < 16);
    }
}

#[test]
fn mpeg1_scfsi_copies_granule0() {
    // scalefac_compress 5 selects (1, 1); SCFSI set for ranges 1 and 3.
    let mut ch = GranuleChannel::default();
    ch.scalefac_compress = 5;
    ch.block_type = BlockType::Long;

    let mut gr0 = [0u8; 39];
    for i in 0..21 {
        gr0[i] = (i % 16) as u8;
    }
    let scfsi = [false, true, false, true];

    // Ranges 0 and 2 are read: 6 + 5 = 11 one-bit values.
    let mut bits = Vec::new();
    for _ in 0..11 {
        push_bits(&mut bits, 1, 1);
    }
    let bytes = to_bytes(&bits);
    let mut bs = BitReader::new(&bytes);
    let n = l3_read_scale_factors_mpeg1(&mut bs, true, &scfsi, &gr0, &mut ch).unwrap();
    assert_eq!(n, 11);
    for i in 0..6 {
        assert_eq!(ch.scalefacs[i], 1); // read
    }
    for i in 6..11 {
        assert_eq!(ch.scalefacs[i], gr0[i]); // shared
    }
    for i in 11..16 {
        assert_eq!(ch.scalefacs[i], 1); // read
    }
    for i in 16..21 {
        assert_eq!(ch.scalefacs[i], gr0[i]); // shared
    }
}

#[test]
fn mpeg1_short_block_scale_factors() {
    // scalefac_compress 5 selects (1, 1): 18 + 18 one-bit scale factors.
    let mut ch = GranuleChannel::default();
    ch.scalefac_compress = 5;
    ch.block_type = BlockType::Short { is_mixed: false };

    let mut bits = Vec::new();
    for _ in 0..36 {
        push_bits(&mut bits, 1, 1);
    }
    let bytes = to_bytes(&bits);
    let mut bs = BitReader::new(&bytes);
    let n = l3_read_scale_factors_mpeg1(&mut bs, false, &[false; 4], &[0u8; 39], &mut ch).unwrap();
    assert_eq!(n, 36);
    for i in 0..36 {
        assert_eq!(ch.scalefacs[i], 1);
    }
    assert_eq!(ch.scalefacs[36], 0);
}

#[test]
fn mpeg2_scale_factors_ordinary() {
    // scalefac_compress 100: sfc/16 = 6, so slen = (6/5, 6%5, (100%16)/4,
    // 100%4) = (1, 1, 1, 0); a long block in the first row class uses
    // counts (6, 5, 5, 5).
    let mut ch = GranuleChannel::default();
    ch.scalefac_compress = 100;
    ch.block_type = BlockType::Long;

    let mut bits = Vec::new();
    for _ in 0..16 {
        push_bits(&mut bits, 1, 1);
    }
    let bytes = to_bytes(&bits);
    let mut bs = BitReader::new(&bytes);
    let n = l3_read_scale_factors_mpeg2(&mut bs, false, &mut ch).unwrap();
    assert_eq!(n, 6 + 5 + 5);
    for i in 0..16 {
        assert_eq!(ch.scalefacs[i], 1);
    }
    // The fourth partition has width zero: its five scale factors stay 0.
    for i in 16..21 {
        assert_eq!(ch.scalefacs[i], 0);
    }
    for i in 0..39 {
        assert!(ch.scalefacs[i] < 16);
    }
}

#[test]
fn mpeg2_scale_factors_intensity_fit_five_bits() {
    // Intensity decomposition: sfc = 360 halves to 180, in the second
    // region: slen = ((0 % 64) / 16, (0 % 16) / 4, 0 % 4, 0) = (0, 0, 0, 0)
    // — pick 358 instead: c = 179: slen = (179/36, (179%36)/6, (179%36)%6, 0)
    // = (4, 5, 5, 0); a long block in intensity row 0 uses counts
    // (7, 7, 7, 0).
    let mut ch = GranuleChannel::default();
    ch.scalefac_compress = 358;
    ch.block_type = BlockType::Long;

    let mut bits = Vec::new();
    for _ in 0..7 {
        push_bits(&mut bits, 9, 4);
    }
    for _ in 0..14 {
        push_bits(&mut bits, 25, 5);
    }
    let bytes = to_bytes(&bits);
    let mut bs = BitReader::new(&bytes);
    let n = l3_read_scale_factors_mpeg2(&mut bs, true, &mut ch).unwrap();
    assert_eq!(n, 7 * 4 + 14 * 5);
    for i in 0..7 {
        assert_eq!(ch.scalefacs[i], 9);
    }
    for i in 7..21 {
        assert_eq!(ch.scalefacs[i], 25);
    }
    for i in 0..39 {
        assert!(ch.scalefacs[i] < 32);
    }
}
