use mp3_codec::header::read_frame_header;
use mp3_codec::huffman::{Codebook, HuffmanTables};
use mp3_codec::maindata::l3_read_main_data;
use mp3_codec::reservoir::BitResevoir;
use mp3_codec::sideinfo::l3_read_side_info;

fn empty_tables() -> HuffmanTables {
    let mut big = Vec::new();
    for _ in 0..32 {
        big.push(Codebook::empty());
    }
    HuffmanTables::new(big, Codebook::empty(), Codebook::empty()).unwrap()
}

/// Two consecutive silence frames: every part2_3_length is zero, so every
/// spectral sample decodes to zero, and the reservoir advances by the
/// main_data size of each frame.
#[test]
fn two_silence_frames_decode_to_zeros() {
    // MPEG-1, Layer III, mono, 128 kbps, 44.1 kHz: 413 bytes after the
    // header, of which 17 are side information.
    let fh = read_frame_header(0xFFFB90C0, 0).unwrap();
    assert_eq!(fh.frame_size, 413);
    let side_info = [0u8; 17];
    let main_size = fh.frame_size - fh.side_info_len();
    assert_eq!(main_size, 396);

    let tables = empty_tables();
    let mut reservoir = BitResevoir::new();

    for _ in 0..2 {
        let (mut fd, len) = l3_read_side_info(&side_info, &fh).unwrap();
        assert_eq!(len, 17);
        assert_eq!(fd.main_data_begin, 0);

        reservoir.fill(fd.main_data_begin as usize, &vec![0u8; main_size]).unwrap();
        assert_eq!(reservoir.len(), main_size);

        let bufs = l3_read_main_data(&fh, &mut fd, &reservoir, &tables).unwrap();
        // Two granules, one channel each: 2 * 576 = 1152 samples, all
        // zero.
        assert_eq!(bufs.len(), 2);
        let mut total = 0;
        for b in &bufs {
            assert_eq!(b.len(), 576);
            assert!(b.iter().all(|&v| v == 0));
            total += b.len();
        }
        assert_eq!(total, 1152);
        assert_eq!(fd.granules[0].channels[0].rzero, 0);
        assert_eq!(fd.granules[1].channels[0].rzero, 0);
    }
}
