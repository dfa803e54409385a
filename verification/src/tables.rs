//! Constant tables from ISO/IEC 11172-3 and ISO/IEC 13818-3.

use vstd::prelude::*;

verus! {

/// Bit-rate lookup table for MPEG version 1 layer 1.
pub const BIT_RATES_MPEG1_L1: [u32; 15] = [
    0,
    32_000, 64_000, 96_000, 128_000, 160_000, 192_000, 224_000,
    256_000, 288_000, 320_000, 352_000, 384_000, 416_000, 448_000,
];

/// Bit-rate lookup table for MPEG version 1 layer 2.
pub const BIT_RATES_MPEG1_L2: [u32; 15] = [
    0,
    32_000, 48_000, 56_000, 64_000, 80_000, 96_000, 112_000,
    128_000, 160_000, 192_000, 224_000, 256_000, 320_000, 384_000,
];

/// Bit-rate lookup table for MPEG version 1 layer 3.
pub const BIT_RATES_MPEG1_L3: [u32; 15] = [
    0,
    32_000, 40_000, 48_000, 56_000, 64_000, 80_000, 96_000,
    112_000, 128_000, 160_000, 192_000, 224_000, 256_000, 320_000,
];

/// Bit-rate lookup table for MPEG version 2 & 2.5 audio layer 1.
pub const BIT_RATES_MPEG2_L1: [u32; 15] = [
    0,
    32_000, 48_000, 56_000, 64_000, 80_000, 96_000, 112_000,
    128_000, 144_000, 160_000, 176_000, 192_000, 224_000, 256_000,
];

/// Bit-rate lookup table for MPEG version 2 & 2.5 audio layers 2 & 3.
pub const BIT_RATES_MPEG2_L23: [u32; 15] = [
    0,
    8_000, 16_000, 24_000, 32_000, 40_000, 48_000, 56_000,
    64_000, 80_000, 96_000, 112_000, 128_000, 144_000, 160_000,
];

/// Pairs of scale-factor bit lengths (slen1, slen2) for MPEG version 1,
/// indexed by scalefac_compress.
pub const SCALE_FACTOR_SLEN: [(u32, u32); 16] = [
    (0, 0), (0, 1), (0, 2), (0, 3), (3, 0), (1, 1), (1, 2), (1, 3),
    (2, 1), (2, 2), (2, 3), (3, 1), (3, 2), (3, 3), (4, 2), (4, 3),
];

/// For MPEG version 2, the number of scale factors read at each of the four
/// slen values, indexed by channel mode class, scalefac_compress region, and
/// block-type class (0 = long, 1 = short, 2 = mixed).
pub const SCALE_FACTOR_MPEG2_NSFB: [[[usize; 4]; 3]; 6] = [
    // Intensity stereo channel modes.
    [[7, 7, 7, 0], [12, 12, 12, 0], [6, 15, 12, 0]],
    [[6, 6, 6, 3], [12, 9, 9, 6], [6, 12, 9, 6]],
    [[8, 8, 5, 0], [15, 12, 9, 0], [6, 18, 9, 0]],
    // Other channel modes.
    [[6, 5, 5, 5], [9, 9, 9, 9], [6, 9, 9, 9]],
    [[6, 5, 7, 3], [9, 9, 12, 6], [6, 9, 12, 6]],
    [[11, 10, 0, 0], [18, 18, 0, 0], [15, 18, 0, 0]],
];

/// Starting sample index of each scale-factor band for long blocks, indexed
/// by sample-rate index and band.
pub const SCALE_FACTOR_LONG_BANDS: [[u32; 23]; 9] = [
    // 44.1 kHz, MPEG version 1, derived from ISO/IEC 11172-3 Table B.8
    [
        0, 4, 8, 12, 16, 20, 24, 30, 36, 44, 52, 62, 74, 90, 110, 134,
        162, 196, 238, 288, 342, 418, 576,
    ],
    // 48 kHz
    [
        0, 4, 8, 12, 16, 20, 24, 30, 36, 42, 50, 60, 72, 88, 106, 128,
        156, 190, 230, 276, 330, 384, 576,
    ],
    // 32 kHz
    [
        0, 4, 8, 12, 16, 20, 24, 30, 36, 44, 54, 66, 82, 102, 126, 156,
        194, 240, 296, 364, 448, 550, 576,
    ],
    // 22.050 kHz, MPEG version 2, derived from ISO/IEC 13818-3 Table B.2
    [
        0, 4, 12, 18, 24, 30, 36, 44, 54, 66, 80, 96, 116, 140, 168, 200,
        238, 284, 336, 396, 464, 522, 576,
    ],
    // 24 kHz
    [
        0, 6, 12, 18, 24, 30, 36, 44, 54, 66, 80, 96, 114, 136, 162, 194,
        232, 278, 332, 394, 464, 540, 576,
    ],
    // 16 kHz
    [
        0, 6, 12, 18, 24, 30, 36, 44, 54, 66, 80, 96, 116, 140, 168, 200,
        238, 284, 336, 396, 464, 522, 576,
    ],
    // 11.025 kHz, MPEG version 2.5
    [
        0, 6, 12, 18, 24, 30, 36, 44, 54, 66, 80, 96, 116, 140, 168, 200,
        238, 284, 336, 396, 464, 522, 576,
    ],
    // 12 kHz
    [
        0, 6, 12, 18, 24, 30, 36, 44, 54, 66, 80, 96, 116, 140, 168, 200,
        238, 284, 336, 396, 464, 522, 576,
    ],
    // 8 kHz
    [
        0, 12, 24, 36, 48, 60, 72, 88, 108, 132, 160, 192, 232, 280, 336, 400,
        476, 566, 568, 570, 572, 574, 576,
    ],
];

/// Starting sample index of each scale-factor band for short blocks, indexed
/// by sample-rate index and band. Each value counts one of the three windows,
/// so sample offsets are three times these values.
pub const SCALE_FACTOR_SHORT_BANDS: [[u32; 14]; 9] = [
    // 44.1 kHz, MPEG version 1
    [0, 4, 8, 12, 16, 22, 30, 40, 52, 66, 84, 106, 136, 192],
    // 48 kHz
    [0, 4, 8, 12, 16, 22, 28, 38, 50, 64, 80, 100, 126, 192],
    // 32 kHz
    [0, 4, 8, 12, 16, 22, 30, 42, 58, 78, 104, 138, 180, 192],
    // 22.050 kHz, MPEG version 2
    [0, 4, 8, 12, 18, 24, 32, 42, 56, 74, 100, 132, 174, 192],
    // 24 kHz
    [0, 4, 8, 12, 18, 26, 36, 48, 62, 80, 104, 136, 180, 192],
    // 16 kHz
    [0, 4, 8, 12, 18, 26, 36, 48, 62, 80, 104, 134, 174, 192],
    // 11.025 kHz, MPEG version 2.5
    [0, 4, 8, 12, 18, 26, 36, 48, 62, 80, 104, 134, 174, 192],
    // 12 kHz
    [0, 4, 8, 12, 18, 26, 36, 48, 62, 80, 104, 134, 174, 192],
    // 8 kHz
    [0, 8, 16, 24, 36, 52, 72, 96, 124, 160, 162, 164, 166, 192],
];

/// The pre-emphasis amounts per long scale-factor band, from table B.6 of
/// ISO/IEC 11172-3.
pub const PRE_EMPHASIS: [u32; 22] = [
    0, 0, 0, 0, 0, 0, 0, 0, 0, 0, 0,
    1, 1, 1, 1, 2, 2, 3, 3, 3, 2, 0,
];

/// The number of extra bits read when a decoded Huffman magnitude saturates
/// at 15, for each of the 32 table slots.
pub const LINBITS: [u32; 32] = [
    0, 0, 0, 0, 0, 0, 0, 0, 0, 0, 0, 0, 0, 0, 0, 0,
    1, 2, 3, 4, 6, 8, 10, 13, 4, 5, 6, 7, 8, 9, 11, 13,
];

/// Each row of the long-band table starts at sample 0, ends at sample 576,
/// and never decreases.
pub proof fn lemma_long_bands_sorted()
    ensures
        forall|s: int, i: int|
            0 <= s < 9 && 0 <= i < 22 ==> #[trigger] SCALE_FACTOR_LONG_BANDS[s][i]
                <= SCALE_FACTOR_LONG_BANDS[s][i + 1],
        forall|s: int| 0 <= s < 9 ==> #[trigger] SCALE_FACTOR_LONG_BANDS[s][0] == 0,
        forall|s: int| 0 <= s < 9 ==> #[trigger] SCALE_FACTOR_LONG_BANDS[s][22] == 576,
        forall|s: int, i: int|
            0 <= s < 9 && 0 <= i < 23 ==> #[trigger] SCALE_FACTOR_LONG_BANDS[s][i] <= 576,
        forall|s: int, i: int|
            0 <= s < 9 && 0 <= i < 23 ==> (#[trigger] SCALE_FACTOR_LONG_BANDS[s][i]) % 2 == 0,
{
}

/// Band starts within a long-band row never decrease: entry `i` is at most
/// entry `j` whenever `i <= j`.
pub proof fn lemma_long_bands_le(s: int, i: int, j: int)
    requires
        0 <= s < 9,
        0 <= i <= j <= 22,
    ensures
        SCALE_FACTOR_LONG_BANDS[s][i] <= SCALE_FACTOR_LONG_BANDS[s][j],
    decreases j - i,
{
    lemma_long_bands_sorted();
    if i < j {
        lemma_long_bands_le(s, i, j - 1);
    }
}

/// Each row of the short-band table starts at window offset 0, ends at 192,
/// and never decreases.
pub proof fn lemma_short_bands_sorted()
    ensures
        forall|s: int, i: int|
            0 <= s < 9 && 0 <= i < 13 ==> #[trigger] SCALE_FACTOR_SHORT_BANDS[s][i]
                <= SCALE_FACTOR_SHORT_BANDS[s][i + 1],
        forall|s: int| 0 <= s < 9 ==> #[trigger] SCALE_FACTOR_SHORT_BANDS[s][0] == 0,
        forall|s: int| 0 <= s < 9 ==> #[trigger] SCALE_FACTOR_SHORT_BANDS[s][13] == 192,
        forall|s: int, i: int|
            0 <= s < 9 && 0 <= i < 14 ==> #[trigger] SCALE_FACTOR_SHORT_BANDS[s][i] <= 192,
{
}

/// Band starts within a short-band row never decrease: entry `i` is at most
/// entry `j` whenever `i <= j`.
pub proof fn lemma_short_bands_le(s: int, i: int, j: int)
    requires
        0 <= s < 9,
        0 <= i <= j <= 13,
    ensures
        SCALE_FACTOR_SHORT_BANDS[s][i] <= SCALE_FACTOR_SHORT_BANDS[s][j],
    decreases j - i,
{
    lemma_short_bands_sorted();
    if i < j {
        lemma_short_bands_le(s, i, j - 1);
    }
}

} // verus!
