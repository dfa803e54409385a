use mp3_codec::error::Error;
use mp3_codec::header::{read_frame_header, is_sync_word, Channels, MpegLayer, MpegVersion, StereoMode};

#[test]
fn sync_word_detection() {
    assert!(is_sync_word(0xFFFB90C0));
    assert!(is_sync_word(0xFFE00000));
    assert!(!is_sync_word(0xFFC00000));
    assert!(!is_sync_word(0x00000000));
}

#[test]
fn mpeg1_layer3_mono_128k_44100() {
    // 128 kbps, 44.1 kHz, mono, no padding, no CRC.
    let fh = read_frame_header(0xFFFB90C0, 0).unwrap();
    assert!(matches!(fh.version, MpegVersion::Mpeg1));
    assert!(matches!(fh.layer, MpegLayer::Layer3));
    assert_eq!(fh.bitrate, 128_000);
    assert_eq!(fh.sample_rate, 44_100);
    assert_eq!(fh.sample_rate_idx, 0);
    assert!(matches!(fh.channels, Channels::Mono));
    assert!(fh.crc.is_none());
    // 144 * 128000 / 44100 - 4 == 413 bytes after the header, and two
    // granules of 576 samples each.
    assert_eq!(fh.frame_size, 413);
    assert_eq!(fh.n_granules(), 2);
    assert_eq!(fh.n_channels(), 1);
    assert_eq!(fh.n_granules() * 576, 1152);
    assert_eq!(fh.side_info_len(), 17);
}

#[test]
fn mpeg2_layer3_stereo_64k_22050() {
    // 64 kbps, 22.05 kHz, stereo, no padding, no CRC.
    let fh = read_frame_header(0xFFF38000, 0).unwrap();
    assert!(matches!(fh.version, MpegVersion::Mpeg2));
    assert!(matches!(fh.layer, MpegLayer::Layer3));
    assert_eq!(fh.bitrate, 64_000);
    assert_eq!(fh.sample_rate, 22_050);
    assert!(matches!(fh.channels, Channels::Stereo));
    // 72 * 64000 / 22050 truncates to 208, minus the 4 header bytes: 204
    // bytes, and one granule of 576 samples. With the padding bit set the
    // frame grows by one byte to 205.
    assert_eq!(fh.frame_size, 204);
    let padded = read_frame_header(0xFFF38200, 0).unwrap();
    assert_eq!(padded.frame_size, 205);
    assert_eq!(fh.n_granules(), 1);
    assert_eq!(fh.n_channels(), 2);
    assert_eq!(fh.side_info_len(), 17);
}

#[test]
fn free_bitrate_is_unsupported() {
    // Bitrate index 0000.
    let e = read_frame_header(0xFFFB00C0, 0).unwrap_err();
    assert!(matches!(e, Error::FreeBitrate));
    assert!(e.is_unsupported());
    assert_eq!(e.message(), "Free bit-rate is not supported.");
}

#[test]
fn layer2_header_is_unsupported_for_decoding() {
    // Layer bits 10 (Layer II), 128 kbps, 44.1 kHz, mono.
    let fh = read_frame_header(0xFFFD80C0, 0).unwrap();
    assert!(matches!(fh.layer, MpegLayer::Layer2));
    let e = fh.check_layer_supported().unwrap_err();
    assert!(matches!(e, Error::UnsupportedLayer));
    assert!(e.is_unsupported());
    assert_eq!(e.message(), "Unsupported MPEG Layer.");
}

#[test]
fn reserved_version_bits_are_a_decode_error() {
    // Version bits 01.
    let e = read_frame_header(0xFFEB90C0, 0).unwrap_err();
    assert!(matches!(e, Error::InvalidVersion));
    assert!(!e.is_unsupported());
    assert_eq!(e.message(), "Invalid MPEG version.");
}

#[test]
fn reserved_fields_rejected() {
    // Layer bits 00.
    assert!(matches!(read_frame_header(0xFFF990C0, 0), Err(Error::InvalidLayer)));
    // Bitrate index 1111.
    assert!(matches!(read_frame_header(0xFFFBF0C0, 0), Err(Error::InvalidBitrate)));
    // Sample-rate bits 11.
    assert!(matches!(read_frame_header(0xFFFB9CC0, 0), Err(Error::InvalidSampleRate)));
    // Emphasis bits 10.
    assert!(matches!(read_frame_header(0xFFFB90C2, 0), Err(Error::InvalidEmphasis)));
}

#[test]
fn layer2_bitrate_channel_restrictions() {
    // Layer II mono at 256 kbps is not allowed: bitrate idx 1100 in the
    // MPEG1 L2 table is 256000.
    let e = read_frame_header(0xFFFDC0C0, 0).unwrap_err();
    assert!(matches!(e, Error::InvalidLayer2BitrateMono));
    // Layer II stereo at 32 kbps is not allowed: idx 0001.
    let e = read_frame_header(0xFFFD1000, 0).unwrap_err();
    assert!(matches!(e, Error::InvalidLayer2BitrateStereo));
}

#[test]
fn crc_is_captured_when_announced() {
    // Same header as the 128 kbps mono frame but with the CRC-absent bit
    // cleared.
    let fh = read_frame_header(0xFFFA90C0, 0xBEEF).unwrap();
    assert_eq!(fh.crc, Some(0xBEEF));
    // The CRC shrinks the frame size by two bytes.
    assert_eq!(fh.frame_size, 411);
    let fh2 = read_frame_header(0xFFFB90C0, 0xBEEF).unwrap();
    assert_eq!(fh2.crc, None);
}

#[test]
fn joint_stereo_modes() {
    // Layer III joint stereo, mode extension 10 (mid-side only).
    let fh = read_frame_header(0xFFFB9060, 0).unwrap();
    match fh.channels {
        Channels::JointStereo(StereoMode::Layer3 { mid_side, intensity }) => {
            assert!(mid_side);
            assert!(!intensity);
        }
        _ => panic!("expected layer 3 joint stereo"),
    }
    assert!(!fh.is_intensity_stereo());
    // Layer II joint stereo: the bound is 4 * (mode_ext + 1).
    let fh = read_frame_header(0xFFFD9070, 0).unwrap();
    match fh.channels {
        Channels::JointStereo(StereoMode::Intensity { bound }) => assert_eq!(bound, 16),
        _ => panic!("expected intensity joint stereo"),
    }
    assert!(fh.is_intensity_stereo());
}
