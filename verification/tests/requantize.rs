use mp3_codec::header::read_frame_header;
use mp3_codec::requantize::l3_requantize_exponents;
use mp3_codec::sideinfo::{BlockType, GranuleChannel};

#[test]
fn long_block_exponents_follow_bands() {
    // MPEG-1 at 44.1 kHz: long bands start 0, 4, 8, 12, ...
    let fh = read_frame_header(0xFFFB90C0, 0).unwrap();
    let mut ch = GranuleChannel::default();
    ch.block_type = BlockType::Long;
    ch.global_gain = 210;
    ch.scalefac_scale = false; // multiplier 2
    ch.scalefacs[0] = 1;
    ch.scalefacs[1] = 3;
    ch.preflag = true;

    let e = l3_requantize_exponents(&fh, &ch);
    assert_eq!(e.len(), 576);
    // Band 0: 210 - 210 - 2 * (1 + 0) = -2 over samples [0, 4).
    for i in 0..4 {
        assert_eq!(e[i], -2);
    }
    // Band 1: -2 * 3 = -6 over samples [4, 8).
    for i in 4..8 {
        assert_eq!(e[i], -6);
    }
    // Band 17 has pre-emphasis 3: e = -2 * (0 + 3) = -6 over [196, 238).
    for i in 196..238 {
        assert_eq!(e[i], -6);
    }
    // Band 21 has pre-emphasis 0 again.
    assert_eq!(e[575], 0);
}

#[test]
fn short_block_exponents_follow_windows() {
    let fh = read_frame_header(0xFFFB90C0, 0).unwrap();
    let mut ch = GranuleChannel::default();
    ch.block_type = BlockType::Short { is_mixed: false };
    ch.global_gain = 210;
    ch.scalefac_scale = true; // multiplier 4
    ch.subblock_gain = [0, 1, 2];
    ch.scalefacs[0] = 2; // band 0, window 0
    ch.scalefacs[1] = 0; // band 0, window 1
    ch.scalefacs[2] = 0; // band 0, window 2

    let e = l3_requantize_exponents(&fh, &ch);
    // Band 0 spans 4 samples per window at 44.1 kHz.
    // Window 0: 0 - 0 - 4 * 2 = -8.
    for i in 0..4 {
        assert_eq!(e[i], -8);
    }
    // Window 1: -8 * 1 = -8 subblock gain, scalefac 0.
    for i in 4..8 {
        assert_eq!(e[i], -8);
    }
    // Window 2: -8 * 2 = -16.
    for i in 8..12 {
        assert_eq!(e[i], -16);
    }
}

#[test]
fn mixed_block_splits_at_36() {
    let fh = read_frame_header(0xFFFB90C0, 0).unwrap();
    let mut ch = GranuleChannel::default();
    ch.block_type = BlockType::Short { is_mixed: true };
    ch.global_gain = 214;

    let e = l3_requantize_exponents(&fh, &ch);
    // All gains and scale factors zero except global_gain: every computed
    // exponent is 214 - 210 = 4, on the long part and the short part
    // alike.
    for i in 0..576 {
        assert_eq!(e[i], 4, "sample {}", i);
    }
}
