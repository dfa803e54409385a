use mp3_codec::header::read_frame_header;
use mp3_codec::huffman::{Codebook, HuffmanTables};
use mp3_codec::maindata::l3_read_main_data;
use mp3_codec::reservoir::BitResevoir;
use mp3_codec::sideinfo::l3_read_side_info;

fn push_bits(bits: &mut Vec<bool>, value: u32, n: u32) {
    for k in (0..n).rev() {
        bits.push((value >> k) & 1 == 1);
    }
}

fn to_bytes(bits: &[bool]) -> Vec<u8> {
    let mut out = vec![0u8; (bits.len() + 7) / 8];
    for (i, &b) in bits.iter().enumerate() {
        if b {
            out[i / 8] |= 1 << (7 - (i % 8));
        }
    }
    out
}

fn tables_with_slot1() -> HuffmanTables {
    // Slot 1: 0 -> 0x00, 10 -> 0x01, 11 -> 0x11.
    let codes: Vec<(u32, u8, u16)> = vec![(0b0, 1, 0x00), (0b10, 2, 0x01), (0b11, 2, 0x11)];
    let slot1 = Codebook::from_codes(&codes).unwrap();
    let mut big = Vec::new();
    big.push(Codebook::empty());
    big.push(slot1);
    for _ in 2..32 {
        big.push(Codebook::empty());
    }
    HuffmanTables::new(big, Codebook::empty(), Codebook::empty()).unwrap()
}

/// A hand-assembled MPEG-2 mono frame: no scale-factor bits, one
/// big_values pair decoded through table slot 1, signs +/-.
#[test]
fn main_data_decodes_scalefacs_and_samples() {
    // MPEG-2, Layer III, mono, 80 kbps, 22.05 kHz.
    let fh = read_frame_header(0xFFF390C0, 0).unwrap();
    assert_eq!(fh.n_granules(), 1);
    assert_eq!(fh.side_info_len(), 9);

    let mut bits = Vec::new();
    push_bits(&mut bits, 0, 8); // main_data_begin
    push_bits(&mut bits, 0, 1); // private (mono)
    push_bits(&mut bits, 4, 12); // part2_3_length = 4 bits, all Huffman
    push_bits(&mut bits, 1, 9); // big_values = 1
    push_bits(&mut bits, 0, 8); // global_gain
    push_bits(&mut bits, 0, 9); // scalefac_compress: all slens zero
    push_bits(&mut bits, 0, 1); // window switching off
    push_bits(&mut bits, 1, 5); // table_select[0] = 1
    push_bits(&mut bits, 0, 5);
    push_bits(&mut bits, 0, 5);
    push_bits(&mut bits, 0, 4); // region0_count
    push_bits(&mut bits, 0, 3); // region0_1_count
    push_bits(&mut bits, 0, 1); // scalefac_scale
    push_bits(&mut bits, 0, 1); // count1table_select
    assert_eq!(bits.len(), 72);

    let (mut fd, len) = l3_read_side_info(&to_bytes(&bits), &fh).unwrap();
    assert_eq!(len, 9);
    assert_eq!(fd.granules[0].channels[0].part2_3_length, 4);
    assert_eq!(fd.granules[0].channels[0].big_values, 1);

    // Main data: code 11 -> (1, 1), then signs + and -.
    let mut reservoir = BitResevoir::new();
    reservoir.fill(0, &[0b1101_0000]).unwrap();

    let tables = tables_with_slot1();
    let bufs = l3_read_main_data(&fh, &mut fd, &reservoir, &tables).unwrap();
    assert_eq!(bufs.len(), 1);
    assert_eq!(bufs[0][0], 1);
    assert_eq!(bufs[0][1], -1);
    assert!(bufs[0][2..].iter().all(|&v| v == 0));
    assert_eq!(fd.granules[0].channels[0].rzero, 2);
}
