//! Frame-header parsing.
//!
//! An MPEG audio frame begins with an 11-bit sync word followed by a packed
//! 32-bit header. Parsing the header word is pure integer work; pulling the
//! bytes off the wire and locating the sync pattern is left to the caller,
//! which hands the assembled 32-bit word (and the stored CRC value, when the
//! header announces one) to [`read_frame_header`].

use vstd::arithmetic::div_mod::{lemma_div_is_ordered, lemma_div_is_ordered_by_denominator};
use vstd::arithmetic::mul::lemma_mul_inequality;
use vstd::prelude::*;

use crate::error::Error;
use crate::tables::{
    BIT_RATES_MPEG1_L1, BIT_RATES_MPEG1_L2, BIT_RATES_MPEG1_L3, BIT_RATES_MPEG2_L1,
    BIT_RATES_MPEG2_L23,
};

verus! {

/// The MPEG audio version.
#[derive(Clone, Copy, Debug, PartialEq, Eq, Structural)]
pub enum MpegVersion {
    /// Version 2.5
    Mpeg2p5,
    /// Version 2
    Mpeg2,
    /// Version 1
    Mpeg1,
}

/// The MPEG audio layer.
#[derive(Clone, Copy, Debug, PartialEq, Eq, Structural)]
pub enum MpegLayer {
    /// Layer 1
    Layer1,
    /// Layer 2
    Layer2,
    /// Layer 3
    Layer3,
}

/// For Joint Stereo mode, the mode extension describes the features and
/// parameters of the Joint Stereo encoding.
#[derive(Clone, Copy, Debug, PartialEq, Eq, Structural)]
pub enum StereoMode {
    /// Joint Stereo in layer 3 may use both Mid-Side and Intensity encoding.
    Layer3 { mid_side: bool, intensity: bool },
    /// Joint Stereo in layers 1 and 2 may only use Intensity encoding on a
    /// set of bands. The range of bands is [bound..32].
    Intensity { bound: u32 },
}

/// The channel mode.
#[derive(Clone, Copy, Debug, PartialEq, Eq, Structural)]
pub enum Channels {
    /// Single mono audio channel.
    Mono,
    /// Dual mono audio channels.
    DualMono,
    /// Stereo channels.
    Stereo,
    /// Joint Stereo encoded channels (decodes to Stereo).
    JointStereo(StereoMode),
}

impl Channels {
    /// The number of audio channels: one for mono, two otherwise.
    pub open spec fn spec_count(self) -> usize {
        if self == Channels::Mono {
            1usize
        } else {
            2usize
        }
    }

    /// Gets the number of channels.
    pub fn count(&self) -> (r: usize)
        ensures
            r == self.spec_count(),
    {
        match *self {
            Channels::Mono => 1,
            _ => 2,
        }
    }
}

/// The emphasis applied during encoding.
#[derive(Clone, Copy, Debug, PartialEq, Eq, Structural)]
pub enum Emphasis {
    /// No emphasis
    NoEmphasis,
    /// 50/15us
    Fifty15,
    /// CCIT J.17
    CcitJ17,
}

/// A MPEG 1, 2, or 2.5 audio frame header.
#[derive(Clone, Copy, Debug)]
pub struct FrameHeader {
    pub version: MpegVersion,
    pub layer: MpegLayer,
    pub bitrate: u32,
    pub sample_rate: u32,
    pub sample_rate_idx: usize,
    pub channels: Channels,
    pub emphasis: Emphasis,
    pub is_copyrighted: bool,
    pub is_original: bool,
    pub has_padding: bool,
    pub crc: Option<u16>,
    pub frame_size: usize,
}

/// True when the top 11 bits of `sync` are all ones, i.e. when the register
/// ends on a frame-sync pattern.
pub open spec fn spec_is_sync_word(sync: u32) -> bool {
    sync & 0xffe0_0000 == 0xffe0_0000
}

/// Returns true if the 32-bit shift register `sync` ends on the 11-bit frame
/// sync word.
pub fn is_sync_word(sync: u32) -> (r: bool)
    ensures
        r == spec_is_sync_word(sync),
{
    (sync & 0xffe0_0000) == 0xffe0_0000
}

/// The version field of a header word, or an error for the reserved pattern.
pub open spec fn spec_version(h: u32) -> Result<MpegVersion, Error> {
    let v = (h & 0x18_0000) >> 19u32;
    if v == 0 {
        Ok(MpegVersion::Mpeg2p5)
    } else if v == 2 {
        Ok(MpegVersion::Mpeg2)
    } else if v == 3 {
        Ok(MpegVersion::Mpeg1)
    } else {
        Err(Error::InvalidVersion)
    }
}

/// The layer field of a header word, or an error for the reserved pattern.
pub open spec fn spec_layer(h: u32) -> Result<MpegLayer, Error> {
    let v = (h & 0x6_0000) >> 17u32;
    if v == 1 {
        Ok(MpegLayer::Layer3)
    } else if v == 2 {
        Ok(MpegLayer::Layer2)
    } else if v == 3 {
        Ok(MpegLayer::Layer1)
    } else {
        Err(Error::InvalidLayer)
    }
}

/// The bitrate in bits per second selected by the header word, or an error
/// for the "free" (unsupported) and invalid indices.
pub open spec fn spec_bitrate(h: u32, version: MpegVersion, layer: MpegLayer) -> Result<u32, Error> {
    let i = ((h & 0xf000) >> 12u32) as int;
    if i == 0 {
        Err(Error::FreeBitrate)
    } else if i == 15 {
        Err(Error::InvalidBitrate)
    } else if version == MpegVersion::Mpeg1 && layer == MpegLayer::Layer1 {
        Ok(BIT_RATES_MPEG1_L1[i])
    } else if version == MpegVersion::Mpeg1 && layer == MpegLayer::Layer2 {
        Ok(BIT_RATES_MPEG1_L2[i])
    } else if version == MpegVersion::Mpeg1 {
        Ok(BIT_RATES_MPEG1_L3[i])
    } else if layer == MpegLayer::Layer1 {
        Ok(BIT_RATES_MPEG2_L1[i])
    } else {
        Ok(BIT_RATES_MPEG2_L23[i])
    }
}

/// The sample rate in Hz and its table index, or an error for the reserved
/// pattern.
pub open spec fn spec_sample_rate(h: u32, version: MpegVersion) -> Result<(u32, usize), Error> {
    let s = (h & 0xc00) >> 10u32;
    if s == 0 && version == MpegVersion::Mpeg1 {
        Ok((44_100u32, 0usize))
    } else if s == 1 && version == MpegVersion::Mpeg1 {
        Ok((48_000u32, 1usize))
    } else if s == 2 && version == MpegVersion::Mpeg1 {
        Ok((32_000u32, 2usize))
    } else if s == 0 && version == MpegVersion::Mpeg2 {
        Ok((22_050u32, 3usize))
    } else if s == 1 && version == MpegVersion::Mpeg2 {
        Ok((24_000u32, 4usize))
    } else if s == 2 && version == MpegVersion::Mpeg2 {
        Ok((16_000u32, 5usize))
    } else if s == 0 && version == MpegVersion::Mpeg2p5 {
        Ok((11_025u32, 6usize))
    } else if s == 1 && version == MpegVersion::Mpeg2p5 {
        Ok((12_000u32, 7usize))
    } else if s == 2 && version == MpegVersion::Mpeg2p5 {
        Ok((8_000u32, 8usize))
    } else {
        Err(Error::InvalidSampleRate)
    }
}

/// The channel mode selected by the header word. For Joint Stereo, Layer III
/// carries mid-side and intensity flags; Layers I and II carry the first
/// intensity-coded subband, `4 * (mode_ext + 1)`.
pub open spec fn spec_channels(h: u32, layer: MpegLayer) -> Channels {
    let c = (h & 0xc0) >> 6u32;
    if c == 0 {
        Channels::Stereo
    } else if c == 2 {
        Channels::DualMono
    } else if c == 3 {
        Channels::Mono
    } else if layer == MpegLayer::Layer3 {
        Channels::JointStereo(
            StereoMode::Layer3 { mid_side: h & 0x20 != 0, intensity: h & 0x10 != 0 },
        )
    } else {
        Channels::JointStereo(
            StereoMode::Intensity { bound: (4 * (((h & 0x30) >> 4u32) + 1)) as u32 },
        )
    }
}

/// Rejects the Layer 2 bitrate and channel mode combinations that the
/// standard does not allow.
pub open spec fn spec_layer2_check(bitrate: u32, channels: Channels) -> Result<(), Error> {
    if channels == Channels::Mono {
        if bitrate == 224_000 || bitrate == 256_000 || bitrate == 320_000 || bitrate == 384_000 {
            Err(Error::InvalidLayer2BitrateMono)
        } else {
            Ok(())
        }
    } else {
        if bitrate == 32_000 || bitrate == 48_000 || bitrate == 56_000 || bitrate == 80_000 {
            Err(Error::InvalidLayer2BitrateStereo)
        } else {
            Ok(())
        }
    }
}

/// The emphasis field of a header word, or an error for the reserved pattern.
pub open spec fn spec_emphasis(h: u32) -> Result<Emphasis, Error> {
    let e = h & 0x3;
    if e == 0 {
        Ok(Emphasis::NoEmphasis)
    } else if e == 1 {
        Ok(Emphasis::Fifty15)
    } else if e == 3 {
        Ok(Emphasis::CcitJ17)
    } else {
        Err(Error::InvalidEmphasis)
    }
}

/// True when the header word announces a stored CRC (the CRC-absent bit is
/// zero).
pub open spec fn spec_has_crc(h: u32) -> bool {
    h & 0x1_0000 == 0
}

/// The frame size in bytes, not counting the 4-byte header nor the optional
/// 2-byte CRC: `coeff * bitrate / sample_rate + padding - crc_len - 4`, with
/// coeff 144 for MPEG 1 and 72 otherwise.
pub open spec fn spec_frame_size(
    version: MpegVersion,
    bitrate: u32,
    sample_rate: u32,
    has_padding: bool,
    has_crc: bool,
) -> int {
    (if version == MpegVersion::Mpeg1 {
        144int
    } else {
        72int
    }) * bitrate / (sample_rate as int) + (if has_padding {
        1int
    } else {
        0int
    }) - (if has_crc {
        2int
    } else {
        0int
    }) - 4
}

/// The full meaning of a 32-bit header word: either a decoded [`FrameHeader`]
/// or the first error raised by its fields, checked in wire order. `crc16`
/// stands for the two big-endian CRC bytes that follow a header whose
/// CRC-absent bit is clear; it is ignored otherwise.
pub open spec fn spec_read_frame_header(h: u32, crc16: u16) -> Result<FrameHeader, Error> {
    match spec_version(h) {
        Err(e) => Err(e),
        Ok(version) => match spec_layer(h) {
            Err(e) => Err(e),
            Ok(layer) => match spec_bitrate(h, version, layer) {
                Err(e) => Err(e),
                Ok(bitrate) => match spec_sample_rate(h, version) {
                    Err(e) => Err(e),
                    Ok((sample_rate, sample_rate_idx)) => {
                        let channels = spec_channels(h, layer);
                        let l2 = if layer == MpegLayer::Layer2 {
                            spec_layer2_check(bitrate, channels)
                        } else {
                            Ok(())
                        };
                        match l2 {
                            Err(e) => Err(e),
                            Ok(()) => match spec_emphasis(h) {
                                Err(e) => Err(e),
                                Ok(emphasis) => {
                                    let has_crc = spec_has_crc(h);
                                    let has_padding = h & 0x200 != 0;
                                    Ok(
                                        FrameHeader {
                                            version,
                                            layer,
                                            bitrate,
                                            sample_rate,
                                            sample_rate_idx,
                                            channels,
                                            emphasis,
                                            is_copyrighted: h & 0x8 != 0,
                                            is_original: h & 0x4 != 0,
                                            has_padding,
                                            crc: if has_crc {
                                                Some(crc16)
                                            } else {
                                                None
                                            },
                                            frame_size: spec_frame_size(
                                                version,
                                                bitrate,
                                                sample_rate,
                                                has_padding,
                                                has_crc,
                                            ) as usize,
                                        },
                                    )
                                },
                            },
                        }
                    },
                },
            },
        },
    }
}

impl FrameHeader {
    /// The invariants every parsed header satisfies: a valid sample-rate
    /// index that agrees with the version, table-backed bitrate and sample
    /// rate, and a frame size in the range the format allows (at most 1440
    /// payload bytes for Layer III).
    pub open spec fn wf(self) -> bool {
        &&& self.sample_rate_idx < 9
        &&& (self.version == MpegVersion::Mpeg1 <==> self.sample_rate_idx < 3)
        &&& (self.version == MpegVersion::Mpeg2p5 <==> self.sample_rate_idx >= 6)
        &&& 8_000 <= self.sample_rate <= 48_000
        &&& 8_000 <= self.bitrate <= 448_000
        &&& 18 <= self.frame_size <= 2301
        &&& (self.layer == MpegLayer::Layer3 ==> self.frame_size <= 1437)
    }

    /// Returns true if this a MPEG1 frame, false otherwise.
    pub fn is_mpeg1(&self) -> (r: bool)
        ensures
            r == (self.version == MpegVersion::Mpeg1),
    {
        matches!(self.version, MpegVersion::Mpeg1)
    }

    /// Returns true if this a MPEG2.5 frame, false otherwise.
    pub fn is_mpeg2p5(&self) -> (r: bool)
        ensures
            r == (self.version == MpegVersion::Mpeg2p5),
    {
        matches!(self.version, MpegVersion::Mpeg2p5)
    }

    /// Returns true if this is a Layer 1 frame, false otherwise.
    pub fn is_layer1(&self) -> (r: bool)
        ensures
            r == (self.layer == MpegLayer::Layer1),
    {
        matches!(self.layer, MpegLayer::Layer1)
    }

    /// Returns true if this is a Layer 2 frame, false otherwise.
    pub fn is_layer2(&self) -> (r: bool)
        ensures
            r == (self.layer == MpegLayer::Layer2),
    {
        matches!(self.layer, MpegLayer::Layer2)
    }

    /// Returns true if this is a Layer 3 frame, false otherwise.
    pub fn is_layer3(&self) -> (r: bool)
        ensures
            r == (self.layer == MpegLayer::Layer3),
    {
        matches!(self.layer, MpegLayer::Layer3)
    }

    /// The number of granules in the frame: two for MPEG 1, one otherwise.
    pub open spec fn spec_n_granules(self) -> usize {
        if self.version == MpegVersion::Mpeg1 {
            2usize
        } else {
            1usize
        }
    }

    /// Returns the number of granules in the frame.
    pub fn n_granules(&self) -> (r: usize)
        ensures
            r == self.spec_n_granules(),
    {
        match self.version {
            MpegVersion::Mpeg1 => 2,
            _ => 1,
        }
    }

    /// Returns the number of channels per granule.
    pub fn n_channels(&self) -> (r: usize)
        ensures
            r == self.channels.spec_count(),
    {
        self.channels.count()
    }

    /// True when any form of intensity stereo coding is in use.
    pub open spec fn spec_is_intensity_stereo(self) -> bool {
        match self.channels {
            Channels::JointStereo(StereoMode::Intensity { .. }) => true,
            Channels::JointStereo(StereoMode::Layer3 { intensity, .. }) => intensity,
            _ => false,
        }
    }

    /// Returns true if Intensity Stereo encoding is used, false otherwise.
    pub fn is_intensity_stereo(&self) -> (r: bool)
        ensures
            r == self.spec_is_intensity_stereo(),
    {
        match self.channels {
            Channels::JointStereo(StereoMode::Intensity { .. }) => true,
            Channels::JointStereo(StereoMode::Layer3 { intensity, .. }) => intensity,
            _ => false,
        }
    }

    /// Frame decoding handles Layer III only; Layers I and II are
    /// unsupported. Returns the error the decoder raises for them.
    pub fn check_layer_supported(&self) -> (r: Result<(), Error>)
        ensures
            self.layer == MpegLayer::Layer3 ==> r == Ok::<(), Error>(()),
            self.layer != MpegLayer::Layer3 ==> r == Err::<(), Error>(Error::UnsupportedLayer),
    {
        if matches!(self.layer, MpegLayer::Layer3) {
            Ok(())
        } else {
            Err(Error::UnsupportedLayer)
        }
    }

    /// The fixed Layer III side-information length in bytes: 17 or 32 for
    /// MPEG 1 (mono / other), 9 or 17 for MPEG 2 and 2.5.
    pub open spec fn spec_side_info_len(self) -> usize {
        if self.version == MpegVersion::Mpeg1 {
            if self.channels == Channels::Mono {
                17usize
            } else {
                32usize
            }
        } else {
            if self.channels == Channels::Mono {
                9usize
            } else {
                17usize
            }
        }
    }

    /// Returns the byte length of the Layer III side information for this
    /// header.
    pub fn side_info_len(&self) -> (r: usize)
        ensures
            r == self.spec_side_info_len(),
    {
        match (self.is_mpeg1(), self.channels) {
            (true, Channels::Mono) => 17,
            (true, _) => 32,
            (false, Channels::Mono) => 9,
            (false, _) => 17,
        }
    }
}

/// Bounds `c * b / s` from both sides given bounds on `b` and `s`.
proof fn lemma_scaled_div_bounds(c: int, b: int, s: int, blo: int, bhi: int, slo: int, shi: int)
    requires
        0 < c,
        0 < slo <= s <= shi,
        0 <= blo <= b <= bhi,
    ensures
        c * blo / shi <= c * b / s,
        c * b / s <= c * bhi / slo,
{
    lemma_mul_inequality(blo, b, c);
    lemma_mul_inequality(b, bhi, c);
    assert(blo * c == c * blo) by (nonlinear_arith);
    assert(b * c == c * b) by (nonlinear_arith);
    assert(bhi * c == c * bhi) by (nonlinear_arith);
    assert(c * b >= 0) by (nonlinear_arith)
        requires
            0 < c && 0 <= b,
    ;
    lemma_div_is_ordered(c * blo, c * b, s);
    lemma_div_is_ordered_by_denominator(c * blo, s, shi);
    lemma_div_is_ordered(c * b, c * bhi, s);
    lemma_div_is_ordered_by_denominator(c * bhi, slo, s);
}

/// Decodes the version field of `header`.
fn parse_version(header: u32) -> (r: Result<MpegVersion, Error>)
    ensures
        r == spec_version(header),
{
    match (header & 0x18_0000) >> 19u32 {
        0b00 => Ok(MpegVersion::Mpeg2p5),
        0b10 => Ok(MpegVersion::Mpeg2),
        0b11 => Ok(MpegVersion::Mpeg1),
        _ => Err(Error::InvalidVersion),
    }
}

/// Decodes the layer field of `header`.
fn parse_layer(header: u32) -> (r: Result<MpegLayer, Error>)
    ensures
        r == spec_layer(header),
{
    match (header & 0x6_0000) >> 17u32 {
        0b01 => Ok(MpegLayer::Layer3),
        0b10 => Ok(MpegLayer::Layer2),
        0b11 => Ok(MpegLayer::Layer1),
        _ => Err(Error::InvalidLayer),
    }
}

/// Decodes the bitrate field of `header`, also bounding the result for the
/// frame-size arithmetic.
fn parse_bitrate(header: u32, version: MpegVersion, layer: MpegLayer) -> (r: Result<u32, Error>)
    ensures
        r == spec_bitrate(header, version, layer),
        r matches Ok(b) ==> 8_000 <= b <= 448_000,
        r matches Ok(b) ==> (version == MpegVersion::Mpeg1 ==> 32_000 <= b),
        r matches Ok(b) ==> (version != MpegVersion::Mpeg1 ==> b <= 256_000),
        r matches Ok(b) ==> (layer == MpegLayer::Layer3 && version == MpegVersion::Mpeg1 ==> b
            <= 320_000),
        r matches Ok(b) ==> (layer == MpegLayer::Layer3 && version != MpegVersion::Mpeg1 ==> b
            <= 160_000),
{
    let bitrate_idx = (header & 0xf000) >> 12u32;
    if bitrate_idx == 0 {
        // "Free" bit-rate. Note, this is NOT variable bit-rate and is not a
        // mandatory feature of MP3 decoders.
        return Err(Error::FreeBitrate);
    }
    if bitrate_idx == 15 {
        return Err(Error::InvalidBitrate);
    }
    proof {
        assert(bitrate_idx < 16) by (bit_vector)
            requires
                bitrate_idx == (header & 0xf000) >> 12u32,
        ;
    }
    let i = bitrate_idx as usize;
    if matches!(version, MpegVersion::Mpeg1) && matches!(layer, MpegLayer::Layer1) {
        proof {
            assert(forall|j: int|
                1 <= j < 15 ==> 32_000 <= #[trigger] BIT_RATES_MPEG1_L1[j] <= 448_000);
        }
        Ok(BIT_RATES_MPEG1_L1[i])
    } else if matches!(version, MpegVersion::Mpeg1) && matches!(layer, MpegLayer::Layer2) {
        proof {
            assert(forall|j: int|
                1 <= j < 15 ==> 32_000 <= #[trigger] BIT_RATES_MPEG1_L2[j] <= 384_000);
        }
        Ok(BIT_RATES_MPEG1_L2[i])
    } else if matches!(version, MpegVersion::Mpeg1) {
        proof {
            assert(forall|j: int|
                1 <= j < 15 ==> 32_000 <= #[trigger] BIT_RATES_MPEG1_L3[j] <= 320_000);
        }
        Ok(BIT_RATES_MPEG1_L3[i])
    } else if matches!(layer, MpegLayer::Layer1) {
        proof {
            assert(forall|j: int|
                1 <= j < 15 ==> 32_000 <= #[trigger] BIT_RATES_MPEG2_L1[j] <= 256_000);
        }
        Ok(BIT_RATES_MPEG2_L1[i])
    } else {
        proof {
            assert(forall|j: int|
                1 <= j < 15 ==> 8_000 <= #[trigger] BIT_RATES_MPEG2_L23[j] <= 160_000);
        }
        Ok(BIT_RATES_MPEG2_L23[i])
    }
}

/// Decodes the sample-rate field of `header`.
fn parse_sample_rate(header: u32, version: MpegVersion) -> (r: Result<(u32, usize), Error>)
    ensures
        r == spec_sample_rate(header, version),
        r matches Ok((sr, idx)) ==> 8_000 <= sr <= 48_000 && idx < 9,
        r matches Ok((sr, idx)) ==> (version == MpegVersion::Mpeg1 ==> 32_000 <= sr && idx < 3),
        r matches Ok((sr, idx)) ==> (version != MpegVersion::Mpeg1 ==> sr <= 24_000 && idx >= 3),
        r matches Ok((sr, idx)) ==> (version == MpegVersion::Mpeg2p5 <==> idx >= 6),
{
    let srate_bits = (header & 0xc00) >> 10u32;
    match (srate_bits, version) {
        (0b00, MpegVersion::Mpeg1) => Ok((44_100, 0)),
        (0b01, MpegVersion::Mpeg1) => Ok((48_000, 1)),
        (0b10, MpegVersion::Mpeg1) => Ok((32_000, 2)),
        (0b00, MpegVersion::Mpeg2) => Ok((22_050, 3)),
        (0b01, MpegVersion::Mpeg2) => Ok((24_000, 4)),
        (0b10, MpegVersion::Mpeg2) => Ok((16_000, 5)),
        (0b00, MpegVersion::Mpeg2p5) => Ok((11_025, 6)),
        (0b01, MpegVersion::Mpeg2p5) => Ok((12_000, 7)),
        (0b10, MpegVersion::Mpeg2p5) => Ok((8_000, 8)),
        _ => Err(Error::InvalidSampleRate),
    }
}

/// Decodes the channel-mode field of `header`.
fn parse_channels(header: u32, layer: MpegLayer) -> (r: Channels)
    ensures
        r == spec_channels(header, layer),
{
    let mode_bits = (header & 0xc0) >> 6u32;
    if mode_bits == 0 {
        Channels::Stereo
    } else if mode_bits == 2 {
        Channels::DualMono
    } else if mode_bits == 3 {
        Channels::Mono
    } else if matches!(layer, MpegLayer::Layer3) {
        // Joint stereo for layer 3 combines Mid-Side and Intensity Stereo
        // depending on the mode extension bits.
        Channels::JointStereo(
            StereoMode::Layer3 {
                mid_side: header & 0x20 != 0x0,
                intensity: header & 0x10 != 0x0,
            },
        )
    } else {
        // Joint stereo for layers 1 and 2 only supports Intensity Stereo on
        // the subbands from 4 * (mode_ext + 1) upward.
        proof {
            assert((header & 0x30) >> 4u32 <= 3) by (bit_vector);
        }
        Channels::JointStereo(StereoMode::Intensity { bound: 4 * (((header & 0x30) >> 4u32) + 1) })
    }
}

/// Computes the frame size in bytes, excluding the header and CRC.
fn compute_frame_size(
    version: MpegVersion,
    layer: MpegLayer,
    bitrate: u32,
    sample_rate: u32,
    has_padding: bool,
    has_crc: bool,
) -> (r: usize)
    requires
        8_000 <= bitrate <= 448_000,
        8_000 <= sample_rate <= 48_000,
        version == MpegVersion::Mpeg1 ==> 32_000 <= bitrate && 32_000 <= sample_rate,
        version != MpegVersion::Mpeg1 ==> bitrate <= 256_000 && sample_rate <= 24_000,
        layer == MpegLayer::Layer3 && version == MpegVersion::Mpeg1 ==> bitrate <= 320_000,
        layer == MpegLayer::Layer3 && version != MpegVersion::Mpeg1 ==> bitrate <= 160_000,
    ensures
        r == spec_frame_size(version, bitrate, sample_rate, has_padding, has_crc),
        18 <= r <= 2301,
        layer == MpegLayer::Layer3 ==> r <= 1437,
{
    let coeff: u32 = if matches!(version, MpegVersion::Mpeg1) {
        144
    } else {
        72
    };
    // Bound the quotient so the subtractions below cannot wrap and so the
    // result stays inside the range the format allows.
    proof {
        if version == MpegVersion::Mpeg1 {
            lemma_scaled_div_bounds(
                144,
                bitrate as int,
                sample_rate as int,
                32_000,
                448_000,
                32_000,
                48_000,
            );
        } else {
            lemma_scaled_div_bounds(
                72,
                bitrate as int,
                sample_rate as int,
                8_000,
                256_000,
                8_000,
                24_000,
            );
        }
        if layer == MpegLayer::Layer3 {
            if version == MpegVersion::Mpeg1 {
                lemma_scaled_div_bounds(
                    144,
                    bitrate as int,
                    sample_rate as int,
                    32_000,
                    320_000,
                    32_000,
                    48_000,
                );
            } else {
                lemma_scaled_div_bounds(
                    72,
                    bitrate as int,
                    sample_rate as int,
                    8_000,
                    160_000,
                    8_000,
                    24_000,
                );
            }
        }
    }
    let base = coeff * bitrate / sample_rate;
    (base + (if has_padding {
        1u32
    } else {
        0u32
    }) - (if has_crc {
        2u32
    } else {
        0u32
    }) - 4) as usize
}

/// Decodes the 32-bit frame header word that follows the sync pattern.
///
/// `crc16` carries the stored CRC read from the two bytes after the header;
/// it is only looked at when the header's CRC-absent bit is clear. The result
/// is exactly [`spec_read_frame_header`]: every reserved or unsupported field
/// pattern yields its error, and a successful parse pins every field of the
/// returned header.
pub fn read_frame_header(header: u32, crc16: u16) -> (r: Result<FrameHeader, Error>)
    ensures
        r == spec_read_frame_header(header, crc16),
        r matches Ok(fh) ==> fh.wf(),
{
    let version = match parse_version(header) {
        Ok(v) => v,
        Err(e) => {
            return Err(e);
        },
    };
    let layer = match parse_layer(header) {
        Ok(v) => v,
        Err(e) => {
            return Err(e);
        },
    };
    let bitrate = match parse_bitrate(header, version, layer) {
        Ok(v) => v,
        Err(e) => {
            return Err(e);
        },
    };
    let (sample_rate, sample_rate_idx) = match parse_sample_rate(header, version) {
        Ok(v) => v,
        Err(e) => {
            return Err(e);
        },
    };
    let channels = parse_channels(header, layer);

    // Some layer 2 channel and bit-rate combinations are not allowed. Check
    // that the frame does not use them.
    if matches!(layer, MpegLayer::Layer2) {
        if matches!(channels, Channels::Mono) {
            if bitrate == 224_000 || bitrate == 256_000 || bitrate == 320_000 || bitrate == 384_000
            {
                return Err(Error::InvalidLayer2BitrateMono);
            }
        } else {
            if bitrate == 32_000 || bitrate == 48_000 || bitrate == 56_000 || bitrate == 80_000 {
                return Err(Error::InvalidLayer2BitrateStereo);
            }
        }
    }

    let emphasis = match header & 0x3 {
        0b00 => Emphasis::NoEmphasis,
        0b01 => Emphasis::Fifty15,
        0b11 => Emphasis::CcitJ17,
        _ => {
            return Err(Error::InvalidEmphasis);
        },
    };

    let is_copyrighted = header & 0x8 != 0x0;
    let is_original = header & 0x4 != 0x0;
    let has_padding = header & 0x200 != 0;
    let has_crc = header & 0x1_0000 == 0;
    let crc = if has_crc {
        Some(crc16)
    } else {
        None
    };

    let frame_size = compute_frame_size(version, layer, bitrate, sample_rate, has_padding, has_crc);

    Ok(
        FrameHeader {
            version,
            layer,
            bitrate,
            sample_rate,
            sample_rate_idx,
            channels,
            emphasis,
            is_copyrighted,
            is_original,
            has_padding,
            crc,
            frame_size,
        },
    )
}

} // verus!

