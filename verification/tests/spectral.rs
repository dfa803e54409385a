use mp3_codec::error::Error;
use mp3_codec::header::{read_frame_header, Channels, StereoMode};
use mp3_codec::sideinfo::{BlockType, Granule, GranuleChannel};
use mp3_codec::spectral::{l3_frequency_inversion, l3_reorder, l3_stereo_check};

#[test]
fn frequency_inversion_negates_odd_of_odd() {
    // Fill with the bit patterns of 0.0 and distinct values.
    let mut samples: Vec<u32> = (0..576u32).map(|i| (i as f32).to_bits()).collect();
    let orig = samples.clone();
    l3_frequency_inversion(&mut samples);
    for i in 0..576 {
        let v = f32::from_bits(samples[i]);
        let o = f32::from_bits(orig[i]);
        if (i / 18) % 2 == 1 && i % 2 == 1 {
            assert_eq!(v, -o);
        } else {
            assert_eq!(v, o);
        }
    }
}

#[test]
fn frequency_inversion_is_involutive() {
    let mut samples: Vec<u32> = (0..576u32).map(|i| i.wrapping_mul(2654435761)).collect();
    let orig = samples.clone();
    l3_frequency_inversion(&mut samples);
    assert_ne!(samples, orig);
    l3_frequency_inversion(&mut samples);
    assert_eq!(samples, orig);
}

#[test]
fn reorder_interleaves_short_bands() {
    // MPEG-1 44.1 kHz: the first short band has 4 entries per window.
    let fh = read_frame_header(0xFFFB90C0, 0).unwrap();
    let mut ch = GranuleChannel::default();
    ch.block_type = BlockType::Short { is_mixed: false };
    ch.rzero = 576;

    let mut samples: Vec<u32> = (0..576u32).collect();
    let orig = samples.clone();
    l3_reorder(&fh, &ch, &mut samples);

    // First band, window width 4: [0..12) becomes
    // [0, 4, 8, 1, 5, 9, 2, 6, 10, 3, 7, 11].
    assert_eq!(&samples[0..12], &[0, 4, 8, 1, 5, 9, 2, 6, 10, 3, 7, 11]);

    // Every band is a permutation: same values as a multiset.
    let mut a = samples.clone();
    let mut b = orig.clone();
    a.sort();
    b.sort();
    assert_eq!(a, b);
}

#[test]
fn reorder_leaves_long_blocks_alone() {
    let fh = read_frame_header(0xFFFB90C0, 0).unwrap();
    let mut ch = GranuleChannel::default();
    ch.block_type = BlockType::Long;
    ch.rzero = 576;
    let mut samples: Vec<u32> = (0..576u32).collect();
    let orig = samples.clone();
    l3_reorder(&fh, &ch, &mut samples);
    assert_eq!(samples, orig);
}

#[test]
fn reorder_mixed_block_keeps_long_part() {
    let fh = read_frame_header(0xFFFB90C0, 0).unwrap();
    let mut ch = GranuleChannel::default();
    ch.block_type = BlockType::Short { is_mixed: true };
    ch.rzero = 576;
    let mut samples: Vec<u32> = (0..576u32).collect();
    let orig = samples.clone();
    l3_reorder(&fh, &ch, &mut samples);
    // The first three short bands (36 samples) belong to the long block
    // and stay put.
    assert_eq!(&samples[0..36], &orig[0..36]);
    // The short band at 36 (window width 4 at 44.1 kHz) is interleaved.
    assert_eq!(&samples[36..48], &[36, 40, 44, 37, 41, 45, 38, 42, 46, 39, 43, 47]);
}

#[test]
fn intensity_stereo_block_type_mismatch_is_rejected() {
    // Layer III joint stereo with the intensity bit set.
    let fh = read_frame_header(0xFFFB9050, 0).unwrap();
    match fh.channels {
        Channels::JointStereo(StereoMode::Layer3 { intensity, .. }) => assert!(intensity),
        _ => panic!("expected joint stereo"),
    }
    let mut g = Granule { channels: [GranuleChannel::default(), GranuleChannel::default()] };
    g.channels[0].block_type = BlockType::Long;
    g.channels[1].block_type = BlockType::Short { is_mixed: false };
    let e = l3_stereo_check(&fh, &g).unwrap_err();
    assert!(matches!(e, Error::BlockTypeMismatch));
    assert_eq!(e.message(), "stereo channel pair block_type mismatch");
}

#[test]
fn stereo_plan_flags_and_extent() {
    // Mode extension 10: mid-side without intensity.
    let fh = read_frame_header(0xFFFB9060, 0).unwrap();
    let mut g = Granule { channels: [GranuleChannel::default(), GranuleChannel::default()] };
    g.channels[0].rzero = 100;
    g.channels[1].rzero = 250;
    let plan = l3_stereo_check(&fh, &g).unwrap();
    assert!(plan.mid_side);
    assert!(!plan.intensity);
    assert_eq!(plan.mid_side_end, 250);

    // Plain stereo: no joint processing at all.
    let fh = read_frame_header(0xFFFB9000, 0).unwrap();
    let plan = l3_stereo_check(&fh, &g).unwrap();
    assert!(!plan.mid_side);
    assert!(!plan.intensity);
}
