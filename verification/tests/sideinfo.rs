use mp3_codec::error::Error;
use mp3_codec::header::read_frame_header;
use mp3_codec::sideinfo::{l3_read_side_info, BlockType};

/// Appends `n` bits of `value`, most significant first.
fn push_bits(bits: &mut Vec<bool>, value: u32, n: u32) {
    for k in (0..n).rev() {
        bits.push((value >> k) & 1 == 1);
    }
}

/// Packs bits MSB-first into bytes, padding the last byte with zeros.
fn to_bytes(bits: &[bool]) -> Vec<u8> {
    let mut out = vec![0u8; (bits.len() + 7) / 8];
    for (i, &b) in bits.iter().enumerate() {
        if b {
            out[i / 8] |= 1 << (7 - (i % 8));
        }
    }
    out
}

#[test]
fn big_values_over_288_is_a_decode_error() {
    // MPEG-1, Layer III, mono, 128 kbps, 44.1 kHz.
    let fh = read_frame_header(0xFFFB90C0, 0).unwrap();

    let mut bits = Vec::new();
    push_bits(&mut bits, 0, 9); // main_data_begin
    push_bits(&mut bits, 0, 5); // private bits (mono)
    push_bits(&mut bits, 0, 4); // scfsi
    push_bits(&mut bits, 0, 12); // part2_3_length
    push_bits(&mut bits, 300, 9); // big_values = 300 > 288
    push_bits(&mut bits, 0, 32); // filler so the reads do not run out

    let e = l3_read_side_info(&to_bytes(&bits), &fh).unwrap_err();
    assert!(matches!(e, Error::BigValuesTooLarge));
    assert_eq!(e.message(), "Granule big_values > 288.");
}

#[test]
fn mono_mpeg1_side_info_parses_fields() {
    let fh = read_frame_header(0xFFFB90C0, 0).unwrap();

    let mut bits = Vec::new();
    push_bits(&mut bits, 5, 9); // main_data_begin = 5
    push_bits(&mut bits, 0, 5); // private
    push_bits(&mut bits, 0b1010, 4); // scfsi
    for _ in 0..2 {
        // Two granules, one channel each.
        push_bits(&mut bits, 123, 12); // part2_3_length
        push_bits(&mut bits, 40, 9); // big_values
        push_bits(&mut bits, 210, 8); // global_gain
        push_bits(&mut bits, 7, 4); // scalefac_compress
        push_bits(&mut bits, 0, 1); // window switching off
        push_bits(&mut bits, 3, 5); // table_select[0]
        push_bits(&mut bits, 4, 5); // table_select[1]
        push_bits(&mut bits, 5, 5); // table_select[2]
        push_bits(&mut bits, 2, 4); // region0_count (stored)
        push_bits(&mut bits, 1, 3); // region0_1_count (stored)
        push_bits(&mut bits, 1, 1); // preflag
        push_bits(&mut bits, 0, 1); // scalefac_scale
        push_bits(&mut bits, 1, 1); // count1table_select
    }
    assert_eq!(bits.len(), 17 * 8);

    let (fd, len) = l3_read_side_info(&to_bytes(&bits), &fh).unwrap();
    assert_eq!(len, 17);
    assert_eq!(fd.main_data_begin, 5);
    assert_eq!(fd.scfsi[0], [true, false, true, false]);
    let c = &fd.granules[0].channels[0];
    assert_eq!(c.part2_3_length, 123);
    assert_eq!(c.big_values, 40);
    assert_eq!(c.global_gain, 210);
    assert_eq!(c.scalefac_compress, 7);
    assert!(matches!(c.block_type, BlockType::Long));
    assert_eq!(c.table_select, [3, 4, 5]);
    // region0_count = 2 + 1 = 3; region0_1_count = 1 + 3 + 1 = 5; at
    // 44.1 kHz the long bands start at 12 and 20.
    assert_eq!(c.region1_start, 12);
    assert_eq!(c.region2_start, 20);
    assert!(c.preflag);
    assert!(!c.scalefac_scale);
    assert!(c.count1table_select);
    assert_eq!(c.rzero, 0);
    assert_eq!(c.scalefacs, [0u8; 39]);
    let c1 = &fd.granules[1].channels[0];
    assert_eq!(c1.part2_3_length, 123);
}

#[test]
fn window_switching_short_block() {
    let fh = read_frame_header(0xFFFB90C0, 0).unwrap();

    let mut bits = Vec::new();
    push_bits(&mut bits, 0, 9);
    push_bits(&mut bits, 0, 5);
    push_bits(&mut bits, 0, 4);
    for _ in 0..2 {
        push_bits(&mut bits, 0, 12);
        push_bits(&mut bits, 0, 9);
        push_bits(&mut bits, 0, 8);
        push_bits(&mut bits, 0, 4);
        push_bits(&mut bits, 1, 1); // window switching on
        push_bits(&mut bits, 0b10, 2); // block_type: short
        push_bits(&mut bits, 0, 1); // not mixed
        push_bits(&mut bits, 9, 5); // table_select[0]
        push_bits(&mut bits, 10, 5); // table_select[1]
        push_bits(&mut bits, 1, 3); // subblock_gain[0]
        push_bits(&mut bits, 2, 3);
        push_bits(&mut bits, 3, 3);
        push_bits(&mut bits, 0, 3); // preflag, scalefac_scale, count1
    }

    let (fd, _) = l3_read_side_info(&to_bytes(&bits), &fh).unwrap();
    let c = &fd.granules[0].channels[0];
    assert!(matches!(c.block_type, BlockType::Short { is_mixed: false }));
    assert_eq!(c.table_select, [9, 10, 0]);
    assert_eq!(c.subblock_gain, [1, 2, 3]);
    // MPEG 1 short blocks: region0 spans 36 samples, region1 the rest.
    assert_eq!(c.region1_start, 36);
    assert_eq!(c.region2_start, 576);
}

#[test]
fn window_switching_block_type_zero_rejected() {
    let fh = read_frame_header(0xFFFB90C0, 0).unwrap();

    let mut bits = Vec::new();
    push_bits(&mut bits, 0, 9);
    push_bits(&mut bits, 0, 5);
    push_bits(&mut bits, 0, 4);
    push_bits(&mut bits, 0, 12);
    push_bits(&mut bits, 0, 9);
    push_bits(&mut bits, 0, 8);
    push_bits(&mut bits, 0, 4);
    push_bits(&mut bits, 1, 1); // window switching on
    push_bits(&mut bits, 0b00, 2); // reserved block type
    push_bits(&mut bits, 0, 32);

    let e = l3_read_side_info(&to_bytes(&bits), &fh).unwrap_err();
    assert!(matches!(e, Error::InvalidBlockType));
    assert_eq!(e.message(), "Invalid block_type.");
}

#[test]
fn truncated_side_info_is_exhausted() {
    let fh = read_frame_header(0xFFFB90C0, 0).unwrap();
    let e = l3_read_side_info(&[0u8; 4], &fh).unwrap_err();
    assert!(matches!(e, Error::BitstreamExhausted));
}
