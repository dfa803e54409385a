//! Layer III side information.
//!
//! The side information directly follows the frame header (and optional CRC)
//! and describes, for every granule and channel, how the main_data bits are
//! to be decoded. Its length is fixed per version and channel count: 17 or
//! 32 bytes for MPEG 1 (mono / other), 9 or 17 bytes for MPEG 2 and 2.5.

use vstd::arithmetic::power2::lemma2_to64;
use vstd::prelude::*;

use crate::bits::{lemma_bits_val_bound, spec_bit, spec_bits_val, BitReader, MAX_BIT_SOURCE_BYTES};
use crate::error::Error;
use crate::header::{Channels, FrameHeader, MpegVersion};
use crate::tables::{lemma_long_bands_le, lemma_long_bands_sorted, SCALE_FACTOR_LONG_BANDS};

verus! {

/// The window shape of a granule channel.
#[derive(Clone, Copy, Debug, PartialEq, Eq, Structural)]
pub enum BlockType {
    /// Default case when window switching is off. Also the normal case when
    /// window switching is on. The granule contains one long block.
    Long,
    Start,
    Short { is_mixed: bool },
    End,
}

/// The side information of one channel in one granule.
#[derive(Clone, Copy, Debug)]
pub struct GranuleChannel {
    /// Total number of bits used for scale factors (part2) and Huffman
    /// encoded data (part3).
    pub part2_3_length: u16,
    /// HALF the number of samples in the big_values partition; at most 288.
    pub big_values: u16,
    /// Quantization step size.
    pub global_gain: u8,
    /// Packed code selecting scale-factor bit widths: a 4-bit table index
    /// for MPEG 1, a 9-bit value decomposed arithmetically for MPEG 2/2.5.
    pub scalefac_compress: u16,
    /// The block type (window shape) of the channel in the granule.
    pub block_type: BlockType,
    /// Gain factors for the three short-block windows, 3 bits each.
    pub subblock_gain: [u8; 3],
    /// The Huffman table to use for decoding each big_values region.
    pub table_select: [u8; 3],
    /// The index of the first sample in region1 of big_values.
    pub region1_start: u32,
    /// The index of the first sample in region2 of big_values.
    pub region2_start: u32,
    /// Whether the pre-emphasis amount for each scale-factor band is added
    /// on to each scale factor before requantization.
    pub preflag: bool,
    /// A 0.5x (false) or 1x (true) multiplier for scale factors.
    pub scalefac_scale: bool,
    /// Use Huffman table A (false) or B (true) for the count1 partition.
    pub count1table_select: bool,
    /// Long and short window scale factors, interpreted per block type.
    /// Values fit 4 bits for MPEG 1, 5 bits for MPEG 2 with intensity
    /// stereo.
    pub scalefacs: [u8; 39],
    /// The starting sample of the rzero partition, set by the Huffman
    /// decoder.
    pub rzero: usize,
}

impl GranuleChannel {
    /// The invariants of parsed side information: `big_values` within the
    /// 576-sample budget, region boundaries non-decreasing and inside the
    /// granule, and every table selector in range.
    pub open spec fn wf(self) -> bool {
        &&& self.big_values <= 288
        &&& self.region1_start <= self.region2_start <= 576
        &&& self.region1_start % 2 == 0
        &&& self.region2_start % 2 == 0
        &&& self.part2_3_length < 4096
        &&& self.scalefac_compress < 512
        &&& (forall|i: int| 0 <= i < 3 ==> self.table_select[i] < 32)
        &&& (forall|i: int| 0 <= i < 3 ==> self.subblock_gain[i] < 8)
        &&& self.rzero <= 576
    }

    /// All fields of a freshly constructed channel: zero counts, a Long
    /// block, and cleared scale factors.
    pub open spec fn spec_is_default(self) -> bool {
        &&& self.part2_3_length == 0
        &&& self.big_values == 0
        &&& self.global_gain == 0
        &&& self.scalefac_compress == 0
        &&& self.block_type == BlockType::Long
        &&& self.subblock_gain@ == seq![0u8, 0u8, 0u8]
        &&& self.table_select@ == seq![0u8, 0u8, 0u8]
        &&& self.region1_start == 0
        &&& self.region2_start == 0
        &&& self.preflag == false
        &&& self.scalefac_scale == false
        &&& self.count1table_select == false
        &&& self.scalefacs@ == Seq::new(39, |i: int| 0u8)
        &&& self.rzero == 0
    }
}

impl Default for GranuleChannel {
    /// A cleared channel, as used before its side information is read.
    fn default() -> (r: Self)
        ensures
            r.spec_is_default(),
            r.wf(),
    {
        let r = GranuleChannel {
            part2_3_length: 0,
            big_values: 0,
            global_gain: 0,
            scalefac_compress: 0,
            block_type: BlockType::Long,
            subblock_gain: [0; 3],
            table_select: [0; 3],
            region1_start: 0,
            region2_start: 0,
            preflag: false,
            scalefac_scale: false,
            count1table_select: false,
            scalefacs: [0; 39],
            rzero: 0,
        };
        proof {
            assert(r.subblock_gain@ =~= seq![0u8, 0u8, 0u8]);
            assert(r.table_select@ =~= seq![0u8, 0u8, 0u8]);
            assert(r.scalefacs@ =~= Seq::new(39, |i: int| 0u8));
        }
        r
    }
}

/// One granule: its two channels (one used when the frame is mono).
#[derive(Clone, Copy, Debug)]
pub struct Granule {
    /// Channels in the granule.
    pub channels: [GranuleChannel; 2],
}

/// The side information and scale factors of a frame. Once parsed from the
/// bitstream, only `scalefacs` and `rzero` change, while the main_data is
/// decoded.
#[derive(Clone, Copy, Debug)]
pub struct FrameData {
    /// The byte offset into the bit reservoir indicating the location of the
    /// first bit of main_data. If 0, main_data begins after the side
    /// information of this frame.
    pub main_data_begin: u16,
    /// Scale factor selector information, per channel: four band groups that
    /// granule 1 may copy from granule 0 (MPEG 1 only).
    pub scfsi: [[bool; 4]; 2],
    /// The granules (only the first is used for MPEG 2/2.5).
    pub granules: [Granule; 2],
}

/// The scalefac_compress width in bits: 4 for MPEG 1, 9 for MPEG 2/2.5.
pub open spec fn spec_scw(mpeg1: bool) -> int {
    if mpeg1 {
        4int
    } else {
        9int
    }
}

/// The fixed bit length of one channel's side information: 59 for MPEG 1,
/// 63 for MPEG 2/2.5.
pub open spec fn spec_gc_bits(mpeg1: bool) -> int {
    if mpeg1 {
        59int
    } else {
        63int
    }
}

/// The window-switching flag of the channel side information at bit `p`.
pub open spec fn spec_gc_ws(s: Seq<u8>, p: int, mpeg1: bool) -> bool {
    spec_bit(s, p + 29 + spec_scw(mpeg1))
}

/// The first error raised while reading one channel's side information at
/// bit `p` of `s`, or `None` when it parses: reads past the end of the data,
/// a big_values count over 288, and block type 00 under window switching, in
/// bitstream order.
pub open spec fn spec_gc_error(s: Seq<u8>, p: int, mpeg1: bool) -> Option<Error> {
    let n = s.len() * 8;
    let scw = spec_scw(mpeg1);
    let q = p + 30 + scw;
    if p + 21 > n {
        Some(Error::BitstreamExhausted)
    } else if spec_bits_val(s, p + 12, 9nat) > 288 {
        Some(Error::BigValuesTooLarge)
    } else if q > n {
        Some(Error::BitstreamExhausted)
    } else if spec_gc_ws(s, p, mpeg1) {
        if q + 3 > n {
            Some(Error::BitstreamExhausted)
        } else if spec_bits_val(s, q, 2nat) == 0 {
            Some(Error::InvalidBlockType)
        } else if p + spec_gc_bits(mpeg1) > n {
            Some(Error::BitstreamExhausted)
        } else {
            None
        }
    } else if p + spec_gc_bits(mpeg1) > n {
        Some(Error::BitstreamExhausted)
    } else {
        None
    }
}

/// Relates the block-dependent fields read under window switching to the
/// bits starting at `q`.
pub open spec fn spec_gc_ws_block(
    bt_field: BlockType,
    ts: Seq<u8>,
    sg: Seq<u8>,
    r1: u32,
    r2: u32,
    s: Seq<u8>,
    q: int,
    mpeg1: bool,
    sri: int,
) -> bool {
    let bt = spec_bits_val(s, q, 2nat);
    let is_mixed = spec_bit(s, q + 2);
    &&& bt_field == (if bt == 1 {
        BlockType::Start
    } else if bt == 2 {
        BlockType::Short { is_mixed }
    } else {
        BlockType::End
    })
    &&& ts == seq![
        spec_bits_val(s, q + 3, 5nat) as u8,
        spec_bits_val(s, q + 8, 5nat) as u8,
        0u8,
    ]
    &&& sg == seq![
        spec_bits_val(s, q + 13, 3nat) as u8,
        spec_bits_val(s, q + 16, 3nat) as u8,
        spec_bits_val(s, q + 19, 3nat) as u8,
    ]
    &&& r1 == (if !mpeg1 && sri >= 6 {
        SCALE_FACTOR_LONG_BANDS[sri][if bt == 2 && !is_mixed {
            6int
        } else {
            8int
        }]
    } else if mpeg1 || bt == 2 {
        36u32
    } else {
        54u32
    })
    &&& r2 == 576
}

/// Relates the block-dependent fields read without window switching to the
/// bits starting at `q`.
pub open spec fn spec_gc_long_block(
    bt_field: BlockType,
    ts: Seq<u8>,
    sg: Seq<u8>,
    r1: u32,
    r2: u32,
    s: Seq<u8>,
    q: int,
    sri: int,
) -> bool {
    let r0c = spec_bits_val(s, q + 15, 4nat) + 1;
    let r01c = spec_bits_val(s, q + 19, 3nat) + r0c + 1;
    &&& bt_field == BlockType::Long
    &&& ts == seq![
        spec_bits_val(s, q, 5nat) as u8,
        spec_bits_val(s, q + 5, 5nat) as u8,
        spec_bits_val(s, q + 10, 5nat) as u8,
    ]
    &&& sg == seq![0u8, 0u8, 0u8]
    &&& r1 == SCALE_FACTOR_LONG_BANDS[sri][r0c as int]
    &&& r2 == (if r01c <= 22 {
        SCALE_FACTOR_LONG_BANDS[sri][r01c as int]
    } else {
        576u32
    })
}

/// Relates a parsed [`GranuleChannel`] to the bits of its side information
/// starting at bit `p` of `s`: every field equals the value of its bit
/// field, and the region boundaries follow the version- and block-dependent
/// rules.
pub open spec fn spec_gc_matches(
    ch: GranuleChannel,
    s: Seq<u8>,
    p: int,
    mpeg1: bool,
    sri: int,
) -> bool {
    let scw = spec_scw(mpeg1);
    let q = p + 30 + scw;
    let ws = spec_gc_ws(s, p, mpeg1);
    let pre: int = if mpeg1 {
        1int
    } else {
        0int
    };
    &&& ch.part2_3_length == spec_bits_val(s, p, 12nat)
    &&& ch.big_values == spec_bits_val(s, p + 12, 9nat)
    &&& ch.global_gain == spec_bits_val(s, p + 21, 8nat)
    &&& ch.scalefac_compress == spec_bits_val(s, p + 29, scw as nat)
    &&& (if ws {
        spec_gc_ws_block(
            ch.block_type,
            ch.table_select@,
            ch.subblock_gain@,
            ch.region1_start,
            ch.region2_start,
            s,
            q,
            mpeg1,
            sri,
        )
    } else {
        spec_gc_long_block(
            ch.block_type,
            ch.table_select@,
            ch.subblock_gain@,
            ch.region1_start,
            ch.region2_start,
            s,
            q,
            sri,
        )
    })
    &&& ch.preflag == (if mpeg1 {
        spec_bit(s, q + 22)
    } else {
        spec_bits_val(s, p + 29, 9nat) >= 500
    })
    &&& ch.scalefac_scale == spec_bit(s, q + 22 + pre)
    &&& ch.count1table_select == spec_bit(s, q + 23 + pre)
    &&& ch.scalefacs@ == Seq::new(39, |i: int| 0u8)
    &&& ch.rzero == 0
}

/// The block-dependent part of one channel's side information.
struct GcBlockInfo {
    block_type: BlockType,
    table_select: [u8; 3],
    subblock_gain: [u8; 3],
    region1_start: u32,
    region2_start: u32,
}

/// Reads the 22 block-describing bits of a window-switching channel.
#[verifier::rlimit(100)]
fn read_gc_block_ws(bs: &mut BitReader, header: &FrameHeader) -> (r: Result<GcBlockInfo, Error>)
    requires
        old(bs).wf(),
        header.wf(),
    ensures
        final(bs).wf(),
        final(bs).data() == old(bs).data(),
        old(bs).spec_pos() <= final(bs).spec_pos() <= old(bs).spec_pos() + 22,
        ({
            let s = old(bs).data();
            let q = old(bs).spec_pos();
            let n = s.len() * 8;
            let mpeg1 = header.version == MpegVersion::Mpeg1;
            if q + 3 > n {
                r == Err::<GcBlockInfo, Error>(Error::BitstreamExhausted)
            } else if spec_bits_val(s, q, 2nat) == 0 {
                r == Err::<GcBlockInfo, Error>(Error::InvalidBlockType)
            } else if q + 22 > n {
                r == Err::<GcBlockInfo, Error>(Error::BitstreamExhausted)
            } else {
                r matches Ok(bi) && spec_gc_ws_block(
                    bi.block_type,
                    bi.table_select@,
                    bi.subblock_gain@,
                    bi.region1_start,
                    bi.region2_start,
                    s,
                    q,
                    mpeg1,
                    header.sample_rate_idx as int,
                ) && final(bs).spec_pos() == q + 22 && bi.region1_start <= 576
                    && bi.region1_start % 2 == 0 && bi.region2_start % 2 == 0
                    && (forall|i: int| 0 <= i < 3 ==> bi.table_select[i] < 32)
                    && (forall|i: int| 0 <= i < 3 ==> bi.subblock_gain[i] < 8)
            }
        }),
{
    let ghost s = old(bs).data();
    let ghost q = old(bs).spec_pos();
    proof {
        lemma2_to64();
        lemma_bits_val_bound(s, q, 2nat);
        lemma_bits_val_bound(s, q + 3, 5nat);
        lemma_bits_val_bound(s, q + 8, 5nat);
        lemma_bits_val_bound(s, q + 13, 3nat);
        lemma_bits_val_bound(s, q + 16, 3nat);
        lemma_bits_val_bound(s, q + 19, 3nat);
        lemma_long_bands_sorted();
    }
    let block_type_enc = match bs.read_bits_leq32(2) {
        Ok(v) => v,
        Err(e) => {
            return Err(e);
        },
    };
    let is_mixed = match bs.read_bit() {
        Ok(v) => v,
        Err(e) => {
            return Err(e);
        },
    };

    let block_type = match block_type_enc {
        // Long block types are not allowed with window switching.
        0b00 => {
            return Err(Error::InvalidBlockType);
        },
        0b01 => BlockType::Start,
        0b10 => BlockType::Short { is_mixed },
        _ => BlockType::End,
    };

    // When window switching is used, there are only two regions, therefore
    // there are only two table selectors.
    let ts0 = match bs.read_bits_leq32(5) {
        Ok(v) => v as u8,
        Err(e) => {
            return Err(e);
        },
    };
    let ts1 = match bs.read_bits_leq32(5) {
        Ok(v) => v as u8,
        Err(e) => {
            return Err(e);
        },
    };

    let sg0 = match bs.read_bits_leq32(3) {
        Ok(v) => v as u8,
        Err(e) => {
            return Err(e);
        },
    };
    let sg1 = match bs.read_bits_leq32(3) {
        Ok(v) => v as u8,
        Err(e) => {
            return Err(e);
        },
    };
    let sg2 = match bs.read_bits_leq32(3) {
        Ok(v) => v as u8,
        Err(e) => {
            return Err(e);
        },
    };

    // The region boundaries are implicit when window switching is used.
    let region1_start: u32;
    if header.is_mpeg2p5() {
        // For MPEG 2.5, the number of long bands in region0 depends on the
        // block type.
        let region0_count: usize = match block_type {
            BlockType::Short { is_mixed: false } => 6,
            _ => 8,
        };
        region1_start = SCALE_FACTOR_LONG_BANDS[header.sample_rate_idx][region0_count];
    } else if header.is_mpeg1() || matches!(block_type, BlockType::Short { .. }) {
        // For MPEG 1, and for short blocks in any version, region0 spans 36
        // samples.
        region1_start = 36;
    } else {
        // For MPEG 2 with a non-short block, region0 spans 54 samples.
        region1_start = 54;
    }

    let bi = GcBlockInfo {
        block_type,
        table_select: [ts0, ts1, 0],
        subblock_gain: [sg0, sg1, sg2],
        region1_start,
        // The second region, region1, spans the remaining samples, so the
        // third region, region2, is not used.
        region2_start: 576,
    };
    proof {
        assert(bi.table_select@ =~= seq![
            spec_bits_val(s, q + 3, 5nat) as u8,
            spec_bits_val(s, q + 8, 5nat) as u8,
            0u8,
        ]);
        assert(bi.subblock_gain@ =~= seq![
            spec_bits_val(s, q + 13, 3nat) as u8,
            spec_bits_val(s, q + 16, 3nat) as u8,
            spec_bits_val(s, q + 19, 3nat) as u8,
        ]);
    }
    Ok(bi)
}

/// Reads the 22 block-describing bits of a channel without window
/// switching.
#[verifier::rlimit(100)]
fn read_gc_block_long(bs: &mut BitReader, header: &FrameHeader) -> (r: Result<GcBlockInfo, Error>)
    requires
        old(bs).wf(),
        header.wf(),
    ensures
        final(bs).wf(),
        final(bs).data() == old(bs).data(),
        old(bs).spec_pos() <= final(bs).spec_pos() <= old(bs).spec_pos() + 22,
        ({
            let s = old(bs).data();
            let q = old(bs).spec_pos();
            let n = s.len() * 8;
            if q + 22 > n {
                r == Err::<GcBlockInfo, Error>(Error::BitstreamExhausted)
            } else {
                r matches Ok(bi) && spec_gc_long_block(
                    bi.block_type,
                    bi.table_select@,
                    bi.subblock_gain@,
                    bi.region1_start,
                    bi.region2_start,
                    s,
                    q,
                    header.sample_rate_idx as int,
                ) && final(bs).spec_pos() == q + 22 && bi.region1_start <= bi.region2_start <= 576
                    && bi.region1_start % 2 == 0 && bi.region2_start % 2 == 0
                    && (forall|i: int| 0 <= i < 3 ==> bi.table_select[i] < 32)
                    && (forall|i: int| 0 <= i < 3 ==> bi.subblock_gain[i] < 8)
            }
        }),
{
    let ghost s = old(bs).data();
    let ghost q = old(bs).spec_pos();
    proof {
        lemma2_to64();
        lemma_bits_val_bound(s, q, 5nat);
        lemma_bits_val_bound(s, q + 5, 5nat);
        lemma_bits_val_bound(s, q + 10, 5nat);
        lemma_bits_val_bound(s, q + 15, 4nat);
        lemma_bits_val_bound(s, q + 19, 3nat);
        lemma_long_bands_sorted();
    }
    // Without window switching the block type is always Long and all three
    // table selectors are present.
    let ts0 = match bs.read_bits_leq32(5) {
        Ok(v) => v as u8,
        Err(e) => {
            return Err(e);
        },
    };
    let ts1 = match bs.read_bits_leq32(5) {
        Ok(v) => v as u8,
        Err(e) => {
            return Err(e);
        },
    };
    let ts2 = match bs.read_bits_leq32(5) {
        Ok(v) => v as u8,
        Err(e) => {
            return Err(e);
        },
    };

    // The number of long bands in region0 and region1; the stored value is
    // one less than the actual value.
    let region0_count = match bs.read_bits_leq32(4) {
        Ok(v) => v as usize + 1,
        Err(e) => {
            return Err(e);
        },
    };
    let region0_1_count = match bs.read_bits_leq32(3) {
        Ok(v) => v as usize + region0_count + 1,
        Err(e) => {
            return Err(e);
        },
    };

    let region1_start = SCALE_FACTOR_LONG_BANDS[header.sample_rate_idx][region0_count];

    // The count in region0_1_count may exceed the last long band (22).
    // Protect against this.
    let region2_start = if region0_1_count <= 22 {
        proof {
            lemma_long_bands_le(
                header.sample_rate_idx as int,
                region0_count as int,
                region0_1_count as int,
            );
        }
        SCALE_FACTOR_LONG_BANDS[header.sample_rate_idx][region0_1_count]
    } else {
        576
    };

    let bi = GcBlockInfo {
        block_type: BlockType::Long,
        table_select: [ts0, ts1, ts2],
        subblock_gain: [0; 3],
        region1_start,
        region2_start,
    };
    proof {
        assert(bi.table_select@ =~= seq![
            spec_bits_val(s, q, 5nat) as u8,
            spec_bits_val(s, q + 5, 5nat) as u8,
            spec_bits_val(s, q + 10, 5nat) as u8,
        ]);
        assert(bi.subblock_gain@ =~= seq![0u8, 0u8, 0u8]);
    }
    Ok(bi)
}

/// Reads the side information for a single channel in a granule.
///
/// Consumes exactly 59 bits (MPEG 1) or 63 bits (MPEG 2/2.5) on success;
/// fails exactly as [`spec_gc_error`] describes, and on success every field
/// of the result is pinned by [`spec_gc_matches`].
#[verifier::rlimit(100)]
pub fn read_granule_channel_side_info_l3(bs: &mut BitReader, header: &FrameHeader) -> (r: Result<
    GranuleChannel,
    Error,
>)
    requires
        old(bs).wf(),
        header.wf(),
    ensures
        final(bs).wf(),
        final(bs).data() == old(bs).data(),
        ({
            let s = old(bs).data();
            let p = old(bs).spec_pos();
            let mpeg1 = header.version == MpegVersion::Mpeg1;
            match spec_gc_error(s, p, mpeg1) {
                Some(e) => r == Err::<GranuleChannel, Error>(e),
                None => r matches Ok(ch) && spec_gc_matches(
                    ch,
                    s,
                    p,
                    mpeg1,
                    header.sample_rate_idx as int,
                ) && ch.wf() && final(bs).spec_pos() == p + spec_gc_bits(mpeg1),
            }
        }),
        old(bs).spec_pos() <= final(bs).spec_pos() <= old(bs).spec_pos() + spec_gc_bits(
            header.version == MpegVersion::Mpeg1,
        ),
        spec_gc_error(old(bs).data(), old(bs).spec_pos(), header.version == MpegVersion::Mpeg1)
            == Some(Error::BigValuesTooLarge) ==> final(bs).spec_pos() == old(bs).spec_pos()
            + 21,
{
    let ghost s = old(bs).data();
    let ghost p = old(bs).spec_pos();
    let mpeg1 = header.is_mpeg1();
    proof {
        lemma2_to64();
        lemma_bits_val_bound(s, p, 12nat);
        lemma_bits_val_bound(s, p + 12, 9nat);
        lemma_bits_val_bound(s, p + 21, 8nat);
        lemma_bits_val_bound(s, p + 29, 4nat);
        lemma_bits_val_bound(s, p + 29, 9nat);
    }

    let part2_3_length = match bs.read_bits_leq32(12) {
        Ok(v) => v as u16,
        Err(e) => {
            return Err(e);
        },
    };
    let big_values = match bs.read_bits_leq32(9) {
        Ok(v) => v as u16,
        Err(e) => {
            return Err(e);
        },
    };

    // The maximum number of samples in a granule is 576. One big_value
    // decodes to 2 samples, therefore there can be no more than 288
    // (576 / 2) big_values.
    if big_values > 288 {
        return Err(Error::BigValuesTooLarge);
    }

    let global_gain = match bs.read_bits_leq32(8) {
        Ok(v) => v as u8,
        Err(e) => {
            return Err(e);
        },
    };

    let scalefac_compress = match bs.read_bits_leq32(if mpeg1 {
        4
    } else {
        9
    }) {
        Ok(v) => v as u16,
        Err(e) => {
            return Err(e);
        },
    };

    let window_switching = match bs.read_bit() {
        Ok(v) => v,
        Err(e) => {
            return Err(e);
        },
    };

    let bi = if window_switching {
        match read_gc_block_ws(bs, header) {
            Ok(bi) => bi,
            Err(e) => {
                return Err(e);
            },
        }
    } else {
        match read_gc_block_long(bs, header) {
            Ok(bi) => bi,
            Err(e) => {
                return Err(e);
            },
        }
    };

    let preflag = if mpeg1 {
        match bs.read_bit() {
            Ok(v) => v,
            Err(e) => {
                return Err(e);
            },
        }
    } else {
        // The pre-flag is implicit for MPEG 2: ISO/IEC 13818-3 section
        // 2.4.3.4.
        scalefac_compress >= 500
    };

    let scalefac_scale = match bs.read_bit() {
        Ok(v) => v,
        Err(e) => {
            return Err(e);
        },
    };
    let count1table_select = match bs.read_bit() {
        Ok(v) => v,
        Err(e) => {
            return Err(e);
        },
    };

    let ch = GranuleChannel {
        part2_3_length,
        big_values,
        global_gain,
        scalefac_compress,
        block_type: bi.block_type,
        subblock_gain: bi.subblock_gain,
        table_select: bi.table_select,
        region1_start: bi.region1_start,
        region2_start: bi.region2_start,
        preflag,
        scalefac_scale,
        count1table_select,
        scalefacs: [0; 39],
        rzero: 0,
    };
    proof {
        assert(ch.scalefacs@ =~= Seq::new(39, |i: int| 0u8));
    }
    Ok(ch)
}

} // verus!

verus! {

/// The bit offset of the first granule-channel record inside the side
/// information: the main_data_begin field, the private bits, and (MPEG 1
/// only) the SCFSI bits come first.
pub open spec fn spec_si_p0(mpeg1: bool, mono: bool) -> int {
    if mpeg1 {
        if mono {
            18int
        } else {
            20int
        }
    } else {
        if mono {
            9int
        } else {
            10int
        }
    }
}

/// The bit offset of the SCFSI bit for channel `c`, group `i` (MPEG 1).
pub open spec fn spec_scfsi_bit(mono: bool, c: int, i: int) -> int {
    9 + (if mono {
        5int
    } else {
        3int
    }) + 4 * c + i
}

/// The number of granule-channel records a frame carries.
pub open spec fn spec_si_count(mpeg1: bool, mono: bool) -> int {
    (if mpeg1 {
        2int
    } else {
        1int
    }) * (if mono {
        1int
    } else {
        2int
    })
}

/// The bit offset of granule-channel record `k`.
pub open spec fn spec_si_offset(mpeg1: bool, mono: bool, k: int) -> int {
    spec_si_p0(mpeg1, mono) + k * spec_gc_bits(mpeg1)
}

/// The first error raised while reading a frame's side information from
/// `s`, or `None` when all of it parses: exhaustion inside the fixed
/// prefix, then the first failing granule-channel record in order.
pub open spec fn spec_si_error(s: Seq<u8>, mpeg1: bool, mono: bool) -> Option<Error> {
    let n = s.len() * 8;
    let cnt = spec_si_count(mpeg1, mono);
    if spec_si_p0(mpeg1, mono) > n {
        Some(Error::BitstreamExhausted)
    } else {
        match spec_gc_error(s, spec_si_offset(mpeg1, mono, 0), mpeg1) {
            Some(e) => Some(e),
            None => if cnt < 2 {
                None
            } else {
                match spec_gc_error(s, spec_si_offset(mpeg1, mono, 1), mpeg1) {
                    Some(e) => Some(e),
                    None => if cnt < 3 {
                        None
                    } else {
                        match spec_gc_error(s, spec_si_offset(mpeg1, mono, 2), mpeg1) {
                            Some(e) => Some(e),
                            None => match spec_gc_error(s, spec_si_offset(mpeg1, mono, 3), mpeg1) {
                                Some(e) => Some(e),
                                None => None,
                            },
                        }
                    },
                }
            },
        }
    }
}

/// Reads the side information of a Layer III frame from the bytes that
/// follow the header (and optional CRC).
///
/// On success returns the parsed [`FrameData`] and the fixed side
/// information length in bytes. Fails exactly as [`spec_si_error`]
/// describes; on success, `main_data_begin`, every SCFSI flag and every
/// field of every granule-channel record equal the values of their bit
/// fields, and records a mono or single-granule frame does not carry are
/// left in their cleared state.
#[verifier::rlimit(100)]
pub fn l3_read_side_info(buf: &[u8], header: &FrameHeader) -> (r: Result<(FrameData, usize), Error>)
    requires
        header.wf(),
        buf@.len() <= MAX_BIT_SOURCE_BYTES,
    ensures
        ({
            let s = buf@;
            let mpeg1 = header.version == MpegVersion::Mpeg1;
            let mono = header.channels == Channels::Mono;
            let sri = header.sample_rate_idx as int;
            match spec_si_error(s, mpeg1, mono) {
                Some(e) => r == Err::<(FrameData, usize), Error>(e),
                None => r matches Ok((fd, len)) && {
                    &&& len == header.spec_side_info_len()
                    &&& fd.main_data_begin == spec_bits_val(
                        s,
                        0,
                        if mpeg1 {
                            9nat
                        } else {
                            8nat
                        },
                    )
                    &&& fd.main_data_begin < 512
                    &&& (forall|c: int, i: int|
                        0 <= c < 2 && 0 <= i < 4 ==> fd.scfsi[c][i] == (mpeg1 && c < (
                        if mono {
                            1int
                        } else {
                            2int
                        }) && spec_bit(s, spec_scfsi_bit(mono, c, i))))
                    &&& spec_gc_matches(
                        fd.granules[0].channels[0],
                        s,
                        spec_si_offset(mpeg1, mono, 0),
                        mpeg1,
                        sri,
                    )
                    &&& fd.granules[0].channels[0].wf()
                    &&& (!mono ==> spec_gc_matches(
                        fd.granules[0].channels[1],
                        s,
                        spec_si_offset(mpeg1, mono, 1),
                        mpeg1,
                        sri,
                    ) && fd.granules[0].channels[1].wf())
                    &&& (mono ==> fd.granules[0].channels[1].spec_is_default())
                    &&& (mpeg1 ==> spec_gc_matches(
                        fd.granules[1].channels[0],
                        s,
                        spec_si_offset(
                            mpeg1,
                            mono,
                            if mono {
                                1int
                            } else {
                                2int
                            },
                        ),
                        mpeg1,
                        sri,
                    ) && fd.granules[1].channels[0].wf())
                    &&& (mpeg1 && !mono ==> spec_gc_matches(
                        fd.granules[1].channels[1],
                        s,
                        spec_si_offset(mpeg1, mono, 3),
                        mpeg1,
                        sri,
                    ) && fd.granules[1].channels[1].wf())
                    &&& (mpeg1 && mono ==> fd.granules[1].channels[1].spec_is_default())
                    &&& (!mpeg1 ==> fd.granules[1].channels[0].spec_is_default()
                        && fd.granules[1].channels[1].spec_is_default())
                },
            }
        }),
{
    let mut bs = BitReader::new(buf);
    let mpeg1 = header.is_mpeg1();
    let mono = matches!(header.channels, Channels::Mono);
    let ghost s = buf@;

    proof {
        lemma2_to64();
        lemma_bits_val_bound(s, 0, 9nat);
        lemma_bits_val_bound(s, 0, 8nat);
    }

    let main_data_begin = match bs.read_bits_leq32(if mpeg1 {
        9
    } else {
        8
    }) {
        Ok(v) => v as u16,
        Err(e) => {
            return Err(e);
        },
    };

    // The private bits are skipped.
    let private_bits: u32 = if mpeg1 {
        if mono {
            5
        } else {
            3
        }
    } else {
        if mono {
            1
        } else {
            2
        }
    };
    match bs.ignore_bits(private_bits) {
        Ok(()) => (),
        Err(e) => {
            return Err(e);
        },
    };

    // The SCFSI bits, MPEG 1 only: four band groups per channel.
    let mut scfsi: [[bool; 4]; 2] = [[false; 4]; 2];
    if mpeg1 {
        let a0 = match bs.read_bit() {
            Ok(v) => v,
            Err(e) => {
                return Err(e);
            },
        };
        let a1 = match bs.read_bit() {
            Ok(v) => v,
            Err(e) => {
                return Err(e);
            },
        };
        let a2 = match bs.read_bit() {
            Ok(v) => v,
            Err(e) => {
                return Err(e);
            },
        };
        let a3 = match bs.read_bit() {
            Ok(v) => v,
            Err(e) => {
                return Err(e);
            },
        };
        if mono {
            scfsi = [[a0, a1, a2, a3], [false; 4]];
        } else {
            let b0 = match bs.read_bit() {
                Ok(v) => v,
                Err(e) => {
                    return Err(e);
                },
            };
            let b1 = match bs.read_bit() {
                Ok(v) => v,
                Err(e) => {
                    return Err(e);
                },
            };
            let b2 = match bs.read_bit() {
                Ok(v) => v,
                Err(e) => {
                    return Err(e);
                },
            };
            let b3 = match bs.read_bit() {
                Ok(v) => v,
                Err(e) => {
                    return Err(e);
                },
            };
            scfsi = [[a0, a1, a2, a3], [b0, b1, b2, b3]];
        }
    }

    // The granule-channel records, granule-major.
    let c00 = match read_granule_channel_side_info_l3(&mut bs, header) {
        Ok(c) => c,
        Err(e) => {
            return Err(e);
        },
    };
    let c01 = if !mono {
        match read_granule_channel_side_info_l3(&mut bs, header) {
            Ok(c) => c,
            Err(e) => {
                return Err(e);
            },
        }
    } else {
        GranuleChannel::default()
    };
    let (c10, c11) = if mpeg1 {
        let c10 = match read_granule_channel_side_info_l3(&mut bs, header) {
            Ok(c) => c,
            Err(e) => {
                return Err(e);
            },
        };
        let c11 = if !mono {
            match read_granule_channel_side_info_l3(&mut bs, header) {
                Ok(c) => c,
                Err(e) => {
                    return Err(e);
                },
            }
        } else {
            GranuleChannel::default()
        };
        (c10, c11)
    } else {
        (GranuleChannel::default(), GranuleChannel::default())
    };

    let fd = FrameData {
        main_data_begin,
        scfsi,
        granules: [Granule { channels: [c00, c01] }, Granule { channels: [c10, c11] }],
    };
    Ok((fd, header.side_info_len()))
}

} // verus!
