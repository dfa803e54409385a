//! The integer part of requantization.
//!
//! Requantization maps each decoded magnitude to
//! `s(i)^(4/3) * 2^(0.25 * e(i))`, where the exponent `e(i)` is an integer
//! determined by the channel's gains and scale factors and by the
//! scale-factor band the sample falls in. Computing `e(i)` is exact integer
//! work and is verified here; raising 2 to a quarter-integer power and
//! multiplying is floating point and stays outside the library.

use vstd::prelude::*;

use crate::header::FrameHeader;
use crate::sideinfo::{BlockType, GranuleChannel};
use crate::tables::{
    lemma_long_bands_le, lemma_long_bands_sorted, lemma_short_bands_le, lemma_short_bands_sorted,
    PRE_EMPHASIS, SCALE_FACTOR_LONG_BANDS, SCALE_FACTOR_SHORT_BANDS,
};

verus! {

/// The quarter-power-of-two exponent of a sample in long scale-factor band
/// `sfb`: `A - B` with `A = global_gain - 210` and
/// `B = multiplier * (scalefac + pre-emphasis)`.
pub open spec fn spec_exp_long(ch: GranuleChannel, sfb: int) -> int {
    ch.global_gain - 210 - (if ch.scalefac_scale {
        4int
    } else {
        2int
    }) * (ch.scalefacs[sfb] + (if ch.preflag {
        PRE_EMPHASIS[sfb] as int
    } else {
        0int
    }))
}

/// The quarter-power-of-two exponent of a sample in window `win` of short
/// scale-factor band `sfb`: the subblock gain joins `A`, and no
/// pre-emphasis applies.
pub open spec fn spec_exp_short(ch: GranuleChannel, sfb: int, win: int) -> int {
    ch.global_gain - 210 - 8 * ch.subblock_gain[win] - (if ch.scalefac_scale {
        4int
    } else {
        2int
    }) * ch.scalefacs[3 * sfb + win]
}

/// All long-band exponents below `limit` stand in `r`.
pub open spec fn spec_long_exps_filled(
    r: Seq<i32>,
    ch: GranuleChannel,
    sri: int,
    limit: int,
) -> bool {
    forall|sfb: int, i: int|
        #![trigger SCALE_FACTOR_LONG_BANDS[sri][sfb], r[i]]
        0 <= sfb < 22 && SCALE_FACTOR_LONG_BANDS[sri][sfb] <= i < SCALE_FACTOR_LONG_BANDS[sri][sfb
            + 1] && i < limit ==> r[i] == spec_exp_long(ch, sfb)
}

/// All short-band exponents from band `sfb0` on stand in `r`, the bands
/// laid out window-major from sample `base`.
pub open spec fn spec_short_exps_filled(
    r: Seq<i32>,
    ch: GranuleChannel,
    sri: int,
    base: int,
    sfb0: int,
) -> bool {
    forall|sfb: int, w: int, k: int|
        #![trigger spec_exp_short(ch, sfb, w), r[base + 3 * (SCALE_FACTOR_SHORT_BANDS[sri][sfb] - SCALE_FACTOR_SHORT_BANDS[sri][sfb0]) + w * (SCALE_FACTOR_SHORT_BANDS[sri][sfb + 1] - SCALE_FACTOR_SHORT_BANDS[sri][sfb]) + k]]
        sfb0 <= sfb < 13 && 0 <= w < 3 && 0 <= k < SCALE_FACTOR_SHORT_BANDS[sri][sfb + 1]
            - SCALE_FACTOR_SHORT_BANDS[sri][sfb] ==> r[base + 3 * (SCALE_FACTOR_SHORT_BANDS[sri][
            sfb
        ] - SCALE_FACTOR_SHORT_BANDS[sri][sfb0]) + w * (SCALE_FACTOR_SHORT_BANDS[sri][sfb + 1]
            - SCALE_FACTOR_SHORT_BANDS[sri][sfb]) + k] == spec_exp_short(ch, sfb, w)
}

/// Writes `value` into `out[start..start + count]`, leaving the rest
/// untouched.
#[verifier::loop_isolation(false)]
fn fill_run(out: &mut Vec<i32>, start: usize, count: usize, value: i32)
    requires
        old(out)@.len() == 576,
        start + count <= 576,
    ensures
        final(out)@.len() == old(out)@.len(),
        forall|j: int| start <= j < start + count ==> (#[trigger] final(out)@[j]) == value,
        forall|j: int|
            0 <= j < old(out)@.len() && !(start <= j < start + count) ==> (
            #[trigger] final(out)@[j]) == old(out)@[j],
{
    let mut k: usize = 0;
    while k < count
        invariant
            out@.len() == old(out)@.len(),
            start + count <= out@.len(),
            k <= count,
            forall|j: int| start <= j < start + k ==> (#[trigger] out@[j]) == value,
            forall|j: int|
                0 <= j < out@.len() && !(start <= j < start + k) ==> (#[trigger] out@[j]) == old(
                    out,
                )@[j],
        decreases count - k,
    {
        out.set(start + k, value);
        k = k + 1;
    }
}

/// The long-block exponent, computed in machine integers.
fn exp_long(channel: &GranuleChannel, sfb: usize) -> (r: i32)
    requires
        sfb < 22,
    ensures
        r == spec_exp_long(*channel, sfb as int),
{
    proof {
        assert(forall|j: int| 0 <= j < 22 ==> #[trigger] PRE_EMPHASIS[j] <= 3);
    }
    let pre: i32 = if channel.preflag {
        PRE_EMPHASIS[sfb] as i32
    } else {
        0
    };
    let mult: i32 = if channel.scalefac_scale {
        4
    } else {
        2
    };
    channel.global_gain as i32 - 210 - mult * (channel.scalefacs[sfb] as i32 + pre)
}

/// The short-block exponent, computed in machine integers.
fn exp_short(channel: &GranuleChannel, sfb: usize, win: usize) -> (r: i32)
    requires
        sfb < 13,
        win < 3,
    ensures
        r == spec_exp_short(*channel, sfb as int, win as int),
{
    let mult: i32 = if channel.scalefac_scale {
        4
    } else {
        2
    };
    channel.global_gain as i32 - 210 - 8 * (channel.subblock_gain[win] as i32) - mult * (
    channel.scalefacs[3 * sfb + win] as i32)
}

/// Fills the exponents of the long bands whose samples lie below `limit`.
#[verifier::loop_isolation(false)]
#[verifier::rlimit(100)]
#[verifier::spinoff_prover]
fn fill_long_exponents(
    header: &FrameHeader,
    channel: &GranuleChannel,
    out: &mut Vec<i32>,
    limit: usize,
)
    requires
        header.wf(),
        old(out)@.len() == 576,
        limit <= 576,
    ensures
        final(out)@.len() == 576,
        spec_long_exps_filled(
            final(out)@,
            *channel,
            header.sample_rate_idx as int,
            limit as int,
        ),
        forall|i: int| limit <= i < 576 ==> (#[trigger] final(out)@[i]) == old(out)@[i],
{
    proof {
        lemma_long_bands_sorted();
    }
    let sri = header.sample_rate_idx;
    let mut sfb: usize = 0;
    while sfb < 22 && (SCALE_FACTOR_LONG_BANDS[sri][sfb] as usize) < limit
        invariant
            out@.len() == 576,
            sfb <= 22,
            forall|s2: int, i: int|
                #![trigger SCALE_FACTOR_LONG_BANDS[sri as int][s2], out@[i]]
                0 <= s2 < sfb && SCALE_FACTOR_LONG_BANDS[sri as int][s2] <= i
                    < SCALE_FACTOR_LONG_BANDS[sri as int][s2 + 1] && i < limit ==> out@[i]
                    == spec_exp_long(*channel, s2),
            forall|i: int| limit <= i < 576 ==> (#[trigger] out@[i]) == old(out)@[i],
            sfb < 22 ==> (forall|i: int|
                SCALE_FACTOR_LONG_BANDS[sri as int][sfb as int] <= i < limit ==> (
                #[trigger] out@[i]) == old(out)@[i]),
        decreases 22 - sfb,
    {
        let start = SCALE_FACTOR_LONG_BANDS[sri][sfb] as usize;
        let band_end = SCALE_FACTOR_LONG_BANDS[sri][sfb + 1] as usize;
        proof {
            lemma_long_bands_le(sri as int, sfb as int + 1, 22);
        }
        let end = if band_end < limit {
            band_end
        } else {
            limit
        };
        let e = exp_long(channel, sfb);
        fill_run(out, start, end - start, e);
        sfb = sfb + 1;
    }
    proof {
        lemma_long_bands_sorted();
        if sfb < 22 {
            assert forall|s2: int, i: int|
                0 <= s2 < 22 && SCALE_FACTOR_LONG_BANDS[sri as int][s2] <= i
                    < SCALE_FACTOR_LONG_BANDS[sri as int][s2 + 1] && i < limit implies out@[i]
                == spec_exp_long(*channel, s2) by {
                if s2 >= sfb {
                    lemma_long_bands_le(sri as int, sfb as int, s2);
                }
            }
        }
    }
}

/// Fills one short band: three windows of `win_len` samples from `i`, with
/// exponents `e0`, `e1`, `e2`.
#[verifier::loop_isolation(false)]
fn fill_band(out: &mut Vec<i32>, i: usize, win_len: usize, e0: i32, e1: i32, e2: i32)
    requires
        old(out)@.len() == 576,
        i + 3 * win_len <= 576,
    ensures
        final(out)@.len() == 576,
        forall|j: int| i <= j < i + win_len ==> (#[trigger] final(out)@[j]) == e0,
        forall|j: int| i + win_len <= j < i + 2 * win_len ==> (#[trigger] final(out)@[j]) == e1,
        forall|j: int|
            i + 2 * win_len <= j < i + 3 * win_len ==> (#[trigger] final(out)@[j]) == e2,
        forall|j: int|
            0 <= j < 576 && !(i <= j < i + 3 * win_len) ==> (#[trigger] final(out)@[j]) == old(
                out,
            )@[j],
{
    fill_run(out, i, win_len, e0);
    fill_run(out, i + win_len, win_len, e1);
    fill_run(out, i + 2 * win_len, win_len, e2);
}

/// Fills the exponents of the short bands from `sfb0` on, starting at
/// sample `base`.
#[verifier::loop_isolation(false)]
#[verifier::rlimit(100)]
#[verifier::spinoff_prover]
fn fill_short_exponents(
    header: &FrameHeader,
    channel: &GranuleChannel,
    out: &mut Vec<i32>,
    base: usize,
    sfb0: usize,
)
    requires
        header.wf(),
        old(out)@.len() == 576,
        sfb0 < 13,
        base + 3 * (192 - SCALE_FACTOR_SHORT_BANDS[header.sample_rate_idx as int][sfb0 as int])
            <= 576,
    ensures
        final(out)@.len() == 576,
        spec_short_exps_filled(
            final(out)@,
            *channel,
            header.sample_rate_idx as int,
            base as int,
            sfb0 as int,
        ),
        forall|i: int| 0 <= i < base ==> (#[trigger] final(out)@[i]) == old(out)@[i],
        forall|i: int|
            base + 3 * (192 - SCALE_FACTOR_SHORT_BANDS[header.sample_rate_idx as int][sfb0 as int])
                <= i < 576 ==> (#[trigger] final(out)@[i]) == old(out)@[i],
{
    proof {
        lemma_short_bands_sorted();
    }
    let sri = header.sample_rate_idx;
    let ghost b0 = SCALE_FACTOR_SHORT_BANDS[sri as int][sfb0 as int];
    let mut sfb: usize = sfb0;
    let mut i: usize = base;
    while sfb < 13
        invariant
            out@.len() == 576,
            sfb0 <= sfb <= 13,
            i == base + 3 * (SCALE_FACTOR_SHORT_BANDS[sri as int][sfb as int] - b0),
            i <= 576,
            base + 3 * (192 - b0) <= 576,
            b0 == SCALE_FACTOR_SHORT_BANDS[sri as int][sfb0 as int],
            forall|s2: int, w: int, k: int|
                #![trigger spec_exp_short(*channel, s2, w), out@[base + 3 * (SCALE_FACTOR_SHORT_BANDS[sri as int][s2] - b0) + w * (SCALE_FACTOR_SHORT_BANDS[sri as int][s2 + 1] - SCALE_FACTOR_SHORT_BANDS[sri as int][s2]) + k]]
                sfb0 <= s2 < sfb && 0 <= w < 3 && 0 <= k < SCALE_FACTOR_SHORT_BANDS[sri as int][s2
                    + 1] - SCALE_FACTOR_SHORT_BANDS[sri as int][s2] ==> out@[base + 3 * (
                SCALE_FACTOR_SHORT_BANDS[sri as int][s2] - b0) + w * (SCALE_FACTOR_SHORT_BANDS[
                    sri as int
                ][s2 + 1] - SCALE_FACTOR_SHORT_BANDS[sri as int][s2]) + k] == spec_exp_short(
                    *channel,
                    s2,
                    w,
                ),
            forall|j: int| 0 <= j < base ==> (#[trigger] out@[j]) == old(out)@[j],
            forall|j: int| i <= j < 576 ==> (#[trigger] out@[j]) == old(out)@[j],
        decreases 13 - sfb,
    {
        let band_start = SCALE_FACTOR_SHORT_BANDS[sri][sfb] as usize;
        let band_next = SCALE_FACTOR_SHORT_BANDS[sri][sfb + 1] as usize;
        proof {
            lemma_short_bands_le(sri as int, sfb0 as int, sfb as int);
            lemma_short_bands_le(sri as int, sfb as int, sfb as int + 1);
            lemma_short_bands_le(sri as int, sfb as int + 1, 13);
        }
        let win_len = band_next - band_start;

        let e0 = exp_short(channel, sfb, 0);
        let e1 = exp_short(channel, sfb, 1);
        let e2 = exp_short(channel, sfb, 2);
        fill_band(out, i, win_len, e0, e1, e2);

        proof {
            let wl = win_len as int;
            assert(0 * wl == 0 && 1 * wl == wl && 2 * wl == wl + wl) by (nonlinear_arith);
        }
        i = i + 3 * win_len;
        sfb = sfb + 1;
    }
}

/// Computes the requantization exponent of every sample position of one
/// channel.
///
/// The result holds, for each of the 576 positions, the integer `e` with
/// `xr(i) = s(i)^(4/3) * 2^(0.25 * e)`: the long-band exponent for long,
/// start and end blocks, the per-window short-band exponent for short
/// blocks, and for mixed blocks the long exponents on the first 36 samples
/// with short bands from band 3 behind them. Positions past the last short
/// band of a mixed block keep exponent zero (their samples are always
/// zero).
#[verifier::rlimit(100)]
pub fn l3_requantize_exponents(header: &FrameHeader, channel: &GranuleChannel) -> (r: Vec<i32>)
    requires
        header.wf(),
    ensures
        r@.len() == 576,
        channel.block_type == (BlockType::Short { is_mixed: false }) ==> spec_short_exps_filled(
            r@,
            *channel,
            header.sample_rate_idx as int,
            0,
            0,
        ),
        channel.block_type == (BlockType::Short { is_mixed: true }) ==> spec_long_exps_filled(
            r@,
            *channel,
            header.sample_rate_idx as int,
            36,
        ) && spec_short_exps_filled(r@, *channel, header.sample_rate_idx as int, 36, 3) && (forall|
            i: int,
        |
            36 + 3 * (192 - SCALE_FACTOR_SHORT_BANDS[header.sample_rate_idx as int][3]) <= i < 576
                ==> (#[trigger] r@[i]) == 0),
        !(channel.block_type matches BlockType::Short { .. }) ==> spec_long_exps_filled(
            r@,
            *channel,
            header.sample_rate_idx as int,
            576,
        ),
{
    let mut out: Vec<i32> = Vec::new();
    let mut z: usize = 0;
    while z < 576
        invariant
            out@.len() == z,
            z <= 576,
            forall|k: int| 0 <= k < z ==> (#[trigger] out@[k]) == 0,
        decreases 576 - z,
    {
        out.push(0);
        z = z + 1;
    }

    match channel.block_type {
        BlockType::Short { is_mixed: false } => {
            proof {
                lemma_short_bands_sorted();
            }
            fill_short_exponents(header, channel, &mut out, 0, 0);
        },
        BlockType::Short { is_mixed: true } => {
            proof {
                lemma_short_bands_sorted();
                lemma_short_bands_le(header.sample_rate_idx as int, 3, 13);
            }
            // The long block spans the first 36 samples; short bands
            // follow from band 3.
            fill_long_exponents(header, channel, &mut out, 36);
            fill_short_exponents(header, channel, &mut out, 36, 3);
        },
        _ => {
            fill_long_exponents(header, channel, &mut out, 576);
        },
    }
    out
}

} // verus!
