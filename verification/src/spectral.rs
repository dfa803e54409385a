//! Integer bookkeeping of the spectral post-processing stages.
//!
//! The stages that move, negate or select samples are exact integer work
//! even though the samples themselves are 32-bit floats: a sample is
//! carried here as its IEEE 754 bit pattern in a `u32`, on which negation
//! is exactly a flip of the sign bit and reordering is a pure permutation.
//! The stages that do real arithmetic on the samples (requantization,
//! mid/side and intensity scaling, antialiasing, the IMDCT) consume the
//! decisions made here and run outside the verified library.

use vstd::prelude::*;
use vstd::seq_lib::lemma_multiset_commutative;

use crate::error::Error;
use crate::header::{Channels, FrameHeader, StereoMode};
use crate::sideinfo::{BlockType, Granule, GranuleChannel};
use crate::tables::{lemma_short_bands_le, lemma_short_bands_sorted, SCALE_FACTOR_SHORT_BANDS};

verus! {

/// The sign bit of an IEEE 754 single-precision value: flipping it negates
/// the value.
pub const F32_SIGN_BIT: u32 = 0x8000_0000;

/// One sample after frequency inversion: samples at an odd in-subband
/// position of an odd subband (18 samples each) are negated, the rest kept.
pub open spec fn spec_freq_inverted(s: Seq<u32>, i: int) -> u32 {
    if (i / 18) % 2 == 1 && i % 2 == 1 {
        s[i] ^ F32_SIGN_BIT
    } else {
        s[i]
    }
}

/// Negates the odd samples of the odd subbands, in place.
///
/// Samples are IEEE 754 bit patterns, so negation is a flip of the sign
/// bit.
#[verifier::loop_isolation(false)]
pub fn l3_frequency_inversion(samples: &mut Vec<u32>)
    requires
        old(samples)@.len() == 576,
    ensures
        final(samples)@.len() == 576,
        forall|i: int|
            0 <= i < 576 ==> (#[trigger] final(samples)@[i]) == spec_freq_inverted(
                old(samples)@,
                i,
            ),
{
    let mut i: usize = 0;
    while i < 576
        invariant
            samples@.len() == 576,
            i <= 576,
            forall|j: int|
                0 <= j < i ==> (#[trigger] samples@[j]) == spec_freq_inverted(old(samples)@, j),
            forall|j: int| i <= j < 576 ==> (#[trigger] samples@[j]) == old(samples)@[j],
        decreases 576 - i,
    {
        if (i / 18) % 2 == 1 && i % 2 == 1 {
            let v = samples[i];
            samples.set(i, v ^ F32_SIGN_BIT);
        }
        i = i + 1;
    }
}

/// Applying frequency inversion twice restores every sample: the stage is
/// its own inverse.
pub proof fn lemma_frequency_inversion_involutive(s: Seq<u32>)
    requires
        s.len() == 576,
    ensures
        forall|i: int|
            0 <= i < 576 ==> spec_freq_inverted(Seq::new(576, |j: int| spec_freq_inverted(s, j)), i)
                == s[i],
{
    assert forall|i: int| 0 <= i < 576 implies spec_freq_inverted(
        Seq::new(576, |j: int| spec_freq_inverted(s, j)),
        i,
    ) == s[i] by {
        let v = s[i];
        assert((v ^ F32_SIGN_BIT) ^ F32_SIGN_BIT == v) by (bit_vector);
    }
}

/// Whether the interleave of three windows of width `L` starting at sample
/// `start` is in place in `new` relative to `old`: sample `k` of window `w`
/// moves from `start + w * L + k` to `start + 3 * k + w`.
pub open spec fn spec_band_interleaved(new: Seq<u32>, old: Seq<u32>, start: int, len: int) -> bool {
    &&& (forall|k: int| 0 <= k < len ==> #[trigger] new[start + 3 * k] == old[start + k])
    &&& (forall|k: int| 0 <= k < len ==> #[trigger] new[start + 3 * k + 1] == old[start + len + k])
    &&& (forall|k: int|
        0 <= k < len ==> #[trigger] new[start + 3 * k + 2] == old[start + 2 * len + k])
}

/// The first short band reordered: band 3 for mixed blocks (the first 36
/// samples belong to a long block), band 0 otherwise.
pub open spec fn spec_reorder_first_band(is_mixed: bool) -> int {
    if is_mixed {
        3int
    } else {
        0int
    }
}

/// Whether short band `sfb` is reordered: it is when it lies at or after
/// the first short band and starts before the channel's `rzero`.
pub open spec fn spec_band_reordered(
    sri: int,
    sfb: int,
    is_mixed: bool,
    rzero: int,
) -> bool {
    spec_reorder_first_band(is_mixed) <= sfb < 13 && 3 * SCALE_FACTOR_SHORT_BANDS[sri][sfb] < rzero
}

/// Interleaves the three windows of one short band in place: the samples
/// `[start, start + 3 * len)` are rewritten from the snapshot `scratch`.
#[verifier::loop_isolation(false)]
fn interleave_band(samples: &mut Vec<u32>, scratch: &Vec<u32>, start: usize, len: usize)
    requires
        old(samples)@.len() == 576,
        scratch@.len() == 576,
        start + 3 * len <= 576,
    ensures
        final(samples)@.len() == 576,
        spec_band_interleaved(final(samples)@, scratch@, start as int, len as int),
        forall|j: int|
            0 <= j < 576 && !(start <= j < start + 3 * len) ==> (#[trigger] final(samples)@[j])
                == old(samples)@[j],
{
    let mut k: usize = 0;
    while k < len
        invariant
            samples@.len() == 576,
            k <= len,
            start + 3 * len <= 576,
            forall|k2: int| 0 <= k2 < k ==> #[trigger] samples@[start + 3 * k2] == scratch@[start + k2],
            forall|k2: int|
                0 <= k2 < k ==> #[trigger] samples@[start + 3 * k2 + 1] == scratch@[start + len + k2],
            forall|k2: int|
                0 <= k2 < k ==> #[trigger] samples@[start + 3 * k2 + 2] == scratch@[start + 2 * len + k2],
            forall|j: int|
                0 <= j < 576 && !(start <= j < start + 3 * k) ==> (#[trigger] samples@[j]) == old(
                    samples,
                )@[j],
        decreases len - k,
    {
        let v0 = scratch[start + k];
        let v1 = scratch[start + len + k];
        let v2 = scratch[start + 2 * len + k];
        samples.set(start + 3 * k, v0);
        samples.set(start + 3 * k + 1, v1);
        samples.set(start + 3 * k + 2, v2);
        k = k + 1;
    }
}

/// Reorders the short-block samples into subband order, in place.
///
/// Within each reordered short band the three windows are interleaved:
/// samples laid out window-by-window become sample-by-sample triplets.
/// Blocks that are not short are left untouched, as is every sample outside
/// the reordered bands.
#[verifier::loop_isolation(false)]
#[verifier::rlimit(100)]
#[verifier::spinoff_prover]
pub fn l3_reorder(header: &FrameHeader, channel: &GranuleChannel, samples: &mut Vec<u32>)
    requires
        header.wf(),
        channel.wf(),
        old(samples)@.len() == 576,
    ensures
        final(samples)@.len() == 576,
        final(samples)@.to_multiset() == old(samples)@.to_multiset(),
        !(channel.block_type matches BlockType::Short { .. }) ==> final(samples)@ == old(
            samples,
        )@,
        channel.block_type matches BlockType::Short { is_mixed } ==> {
            let sri = header.sample_rate_idx as int;
            &&& (forall|sfb: int|
                spec_band_reordered(sri, sfb, is_mixed, channel.rzero as int)
                    ==> #[trigger] spec_band_interleaved(
                    final(samples)@,
                    old(samples)@,
                    3 * SCALE_FACTOR_SHORT_BANDS[sri][sfb],
                    SCALE_FACTOR_SHORT_BANDS[sri][sfb + 1] - SCALE_FACTOR_SHORT_BANDS[sri][sfb],
                ))
            &&& (forall|i: int|
                0 <= i < 3 * SCALE_FACTOR_SHORT_BANDS[sri][spec_reorder_first_band(is_mixed)]
                    ==> #[trigger] final(samples)@[i] == old(samples)@[i])
            &&& (forall|sfb: int, i: int|
                #![trigger final(samples)@[i], SCALE_FACTOR_SHORT_BANDS[sri][sfb]]
                spec_reorder_first_band(is_mixed) <= sfb < 13 && !spec_band_reordered(
                    sri,
                    sfb,
                    is_mixed,
                    channel.rzero as int,
                ) && 3 * SCALE_FACTOR_SHORT_BANDS[sri][sfb] <= i < 3
                    * SCALE_FACTOR_SHORT_BANDS[sri][sfb + 1] ==> final(samples)@[i]
                    == old(samples)@[i])
        },
{
    let is_mixed = match channel.block_type {
        BlockType::Short { is_mixed } => is_mixed,
        _ => {
            return ;
        },
    };
    proof {
        lemma_short_bands_sorted();
    }

    let sri = header.sample_rate_idx;

    // Reads go through a snapshot of the samples, so each band can be
    // interleaved in place.
    let mut scratch: Vec<u32> = Vec::new();
    let mut z: usize = 0;
    while z < 576
        invariant
            samples@.len() == 576,
            scratch@.len() == z,
            z <= 576,
            forall|j: int| 0 <= j < z ==> scratch@[j] == samples@[j],
        decreases 576 - z,
    {
        scratch.push(samples[z]);
        z = z + 1;
    }
    proof {
        assert(scratch@ =~= old(samples)@);
    }

    // Only the short bands of a mixed block are reordered.
    let mut sfb: usize = if is_mixed {
        3
    } else {
        0
    };
    let mut i: usize = 3 * (SCALE_FACTOR_SHORT_BANDS[sri][sfb] as usize);
    let ghost sfb0 = spec_reorder_first_band(is_mixed);

    while i < channel.rzero
        invariant
            samples@.len() == 576,
            scratch@ == old(samples)@,
            sfb0 <= sfb <= 13,
            i == 3 * SCALE_FACTOR_SHORT_BANDS[sri as int][sfb as int],
            i <= 576,
            forall|s2: int|
                sfb0 <= s2 < sfb ==> 3 * (#[trigger] SCALE_FACTOR_SHORT_BANDS[sri as int][s2])
                    < channel.rzero,
            forall|s2: int|
                #![trigger SCALE_FACTOR_SHORT_BANDS[sri as int][s2]]
                sfb0 <= s2 < sfb ==> spec_band_interleaved(
                    samples@,
                    old(samples)@,
                    3 * SCALE_FACTOR_SHORT_BANDS[sri as int][s2],
                    SCALE_FACTOR_SHORT_BANDS[sri as int][s2 + 1] - SCALE_FACTOR_SHORT_BANDS[
                        sri as int
                    ][s2],
                ),
            forall|j: int| 0 <= j < 3 * SCALE_FACTOR_SHORT_BANDS[sri as int][sfb0] ==> (
            #[trigger] samples@[j]) == old(samples)@[j],
            forall|j: int| i <= j < 576 ==> (#[trigger] samples@[j]) == old(samples)@[j],
            samples@.to_multiset() == old(samples)@.to_multiset(),
        decreases 576 - i,
    {
        proof {
            // rzero <= 576 and the band table ends at 192, so another band
            // exists.
            assert(SCALE_FACTOR_SHORT_BANDS[sri as int][sfb as int] < 192);
            if sfb == 13 {
                assert(false);
            }
        }
        let band_start = SCALE_FACTOR_SHORT_BANDS[sri][sfb] as usize;
        let band_end = SCALE_FACTOR_SHORT_BANDS[sri][sfb + 1] as usize;
        proof {
            lemma_short_bands_le(sri as int, sfb0, sfb as int);
            lemma_short_bands_le(sri as int, sfb as int, sfb as int + 1);
            lemma_short_bands_le(sri as int, sfb as int + 1, 13);
        }
        let win_len = band_end - band_start;

        let ghost prev = samples@;
        interleave_band(samples, &scratch, i, win_len);
        proof {
            // Each band interleave permutes the buffer in place.
            assert(spec_band_interleaved(samples@, prev, i as int, win_len as int));
            lemma_band_interleave_preserves_multiset(samples@, prev, i as int, win_len as int);
        }

        proof {
            assert forall|s2: int| sfb0 <= s2 < sfb implies #[trigger] spec_band_interleaved(
                samples@,
                old(samples)@,
                3 * SCALE_FACTOR_SHORT_BANDS[sri as int][s2],
                SCALE_FACTOR_SHORT_BANDS[sri as int][s2 + 1] - SCALE_FACTOR_SHORT_BANDS[
                    sri as int
                ][s2],
            ) by {
                lemma_short_bands_le(sri as int, s2 + 1, sfb as int);
                let start2 = 3 * SCALE_FACTOR_SHORT_BANDS[sri as int][s2];
                let len2 = SCALE_FACTOR_SHORT_BANDS[sri as int][s2 + 1] - SCALE_FACTOR_SHORT_BANDS[
                    sri as int
                ][s2];
                assert forall|k2: int| 0 <= k2 < len2 implies #[trigger] samples@[start2 + 3 * k2]
                    == old(samples)@[start2 + k2] && samples@[start2 + 3 * k2 + 1] == old(
                    samples,
                )@[start2 + len2 + k2] && samples@[start2 + 3 * k2 + 2] == old(samples)@[start2 + 2
                    * len2 + k2] by {
                    assert(start2 + 3 * k2 + 2 < i);
                }
            }
            assert(spec_band_interleaved(
                samples@,
                old(samples)@,
                3 * SCALE_FACTOR_SHORT_BANDS[sri as int][sfb as int],
                SCALE_FACTOR_SHORT_BANDS[sri as int][sfb as int + 1] - SCALE_FACTOR_SHORT_BANDS[
                    sri as int
                ][sfb as int],
            ));
        }
        i = i + 3 * win_len;
        sfb = sfb + 1;
    }

    proof {
        // Bands at or past the stopping point keep their samples.
        assert forall|s2: int, j: int|
            sfb0 <= s2 < 13 && !spec_band_reordered(
                sri as int,
                s2,
                is_mixed,
                channel.rzero as int,
            ) && 3 * SCALE_FACTOR_SHORT_BANDS[sri as int][s2] <= j < 3 * SCALE_FACTOR_SHORT_BANDS[
            sri as int
        ][s2 + 1] implies samples@[j] == old(samples)@[j] by {
            if s2 < sfb {
                lemma_short_bands_le(sri as int, s2, sfb as int);
            } else {
                lemma_short_bands_le(sri as int, sfb as int, s2);
            }
        }
        // Reordered bands all lie before the stopping point.
        assert forall|s2: int|
            spec_band_reordered(sri as int, s2, is_mixed, channel.rzero as int)
                implies #[trigger] spec_band_interleaved(
            samples@,
            old(samples)@,
            3 * SCALE_FACTOR_SHORT_BANDS[sri as int][s2],
            SCALE_FACTOR_SHORT_BANDS[sri as int][s2 + 1] - SCALE_FACTOR_SHORT_BANDS[sri as int][s2],
        ) by {
            if s2 >= sfb {
                lemma_short_bands_le(sri as int, sfb as int, s2);
            }
        }
    }
}

/// The joint-stereo features a frame and granule actually enable: the
/// mid/side flag, the intensity flag, and the number of leading samples the
/// mid/side stage covers.
#[derive(Clone, Copy, Debug, PartialEq, Eq, Structural)]
pub struct StereoPlan {
    /// Mid/side decoding applies to samples `[0, mid_side_end)`.
    pub mid_side: bool,
    /// Intensity-stereo decoding applies to the bands at or past channel
    /// 1's rzero.
    pub intensity: bool,
    /// The larger of the two channels' rzero values.
    pub mid_side_end: usize,
}

/// Validates and plans the joint-stereo stage of one granule.
///
/// Succeeds exactly when no intensity coding is signalled or the two
/// channels declare the same block type; a mismatch under intensity stereo
/// is a decode error. The returned plan carries the two feature flags and
/// the mid/side sample count `max(rzero0, rzero1)`.
pub fn l3_stereo_check(header: &FrameHeader, granule: &Granule) -> (r: Result<StereoPlan, Error>)
    ensures
        ({
            let (ms, is_) = match header.channels {
                Channels::JointStereo(StereoMode::Layer3 { mid_side, intensity }) => (
                    mid_side,
                    intensity,
                ),
                Channels::JointStereo(StereoMode::Intensity { .. }) => (false, true),
                _ => (false, false),
            };
            if is_ && granule.channels[0].block_type != granule.channels[1].block_type {
                r == Err::<StereoPlan, Error>(Error::BlockTypeMismatch)
            } else {
                r == Ok::<StereoPlan, Error>(
                    StereoPlan {
                        mid_side: ms,
                        intensity: is_,
                        mid_side_end: if granule.channels[0].rzero >= granule.channels[1].rzero {
                            granule.channels[0].rzero
                        } else {
                            granule.channels[1].rzero
                        },
                    },
                )
            }
        }),
{
    let (mid_side, intensity) = match header.channels {
        Channels::JointStereo(StereoMode::Layer3 { mid_side, intensity }) => (mid_side, intensity),
        Channels::JointStereo(StereoMode::Intensity { .. }) => (false, true),
        _ => (false, false),
    };

    // Under intensity stereo the channel pair must agree on the window
    // shape.
    if intensity && !block_type_eq(&granule.channels[0].block_type, &granule.channels[1].block_type)
    {
        return Err(Error::BlockTypeMismatch);
    }

    let r0 = granule.channels[0].rzero;
    let r1 = granule.channels[1].rzero;
    Ok(
        StereoPlan {
            mid_side,
            intensity,
            mid_side_end: if r0 >= r1 {
                r0
            } else {
                r1
            },
        },
    )
}

/// Structural equality of two block types.
fn block_type_eq(a: &BlockType, b: &BlockType) -> (r: bool)
    ensures
        r == (a == b),
{
    match (a, b) {
        (BlockType::Long, BlockType::Long) => true,
        (BlockType::Start, BlockType::Start) => true,
        (BlockType::End, BlockType::End) => true,
        (BlockType::Short { is_mixed: m1 }, BlockType::Short { is_mixed: m2 }) => m1 == m2,
        _ => false,
    }
}

/// Interleaving three equally long windows is a permutation: the result
/// holds the same values, as a multiset, as the windows one after another.
pub proof fn lemma_interleave3_multiset(w0: Seq<u32>, w1: Seq<u32>, w2: Seq<u32>, new: Seq<u32>)
    requires
        w0.len() == w1.len(),
        w1.len() == w2.len(),
        new.len() == 3 * w0.len(),
        forall|k: int|
            0 <= k < w0.len() ==> #[trigger] new[3 * k] == w0[k] && new[3 * k + 1] == w1[k]
                && new[3 * k + 2] == w2[k],
    ensures
        new.to_multiset() =~= (w0 + w1 + w2).to_multiset(),
    decreases w0.len(),
{
    broadcast use vstd::seq_lib::group_to_multiset_ensures;

    if w0.len() == 0 {
        assert(new =~= Seq::<u32>::empty());
        assert(w0 + w1 + w2 =~= Seq::<u32>::empty());
    } else {
        let rest = new.subrange(3, new.len() as int);
        assert forall|k: int| 0 <= k < w0.drop_first().len() implies #[trigger] rest[3 * k]
            == w0.drop_first()[k] && rest[3 * k + 1] == w1.drop_first()[k] && rest[3 * k + 2]
            == w2.drop_first()[k] by {
            assert(new[3 * (k + 1)] == w0[k + 1]);
        }
        lemma_interleave3_multiset(w0.drop_first(), w1.drop_first(), w2.drop_first(), rest);

        let first3 = seq![w0[0], w1[0], w2[0]];
        assert(new[3 * 0int] == w0[0int] && new[3 * 0int + 1] == w1[0int] && new[3 * 0int + 2] == w2[0int]);
        assert(new =~= first3 + rest);
        lemma_multiset_commutative(first3, rest);
        lemma_multiset_commutative(
            w0.drop_first() + w1.drop_first(),
            w2.drop_first(),
        );
        lemma_multiset_commutative(w0.drop_first(), w1.drop_first());
        assert(w0.drop_first() + w1.drop_first() + w2.drop_first() =~= (w0.drop_first()
            + w1.drop_first()) + w2.drop_first());

        lemma_multiset_commutative(w0 + w1, w2);
        lemma_multiset_commutative(w0, w1);
        assert(w0 + w1 + w2 =~= (w0 + w1) + w2);

        assert(w0 =~= seq![w0[0]] + w0.drop_first());
        assert(w1 =~= seq![w1[0]] + w1.drop_first());
        assert(w2 =~= seq![w2[0]] + w2.drop_first());
        lemma_multiset_commutative(seq![w0[0]], w0.drop_first());
        lemma_multiset_commutative(seq![w1[0]], w1.drop_first());
        lemma_multiset_commutative(seq![w2[0]], w2.drop_first());

        assert(first3 =~= seq![w0[0]] + seq![w1[0]] + seq![w2[0]]);
        lemma_multiset_commutative(seq![w0[0]] + seq![w1[0]], seq![w2[0]]);
        lemma_multiset_commutative(seq![w0[0]], seq![w1[0]]);
        assert(first3 + rest =~= (seq![w0[0]] + seq![w1[0]] + seq![w2[0]]) + rest);

        assert(new.to_multiset() =~= (w0 + w1 + w2).to_multiset());
    }
}

/// Reordering one short band in place is a permutation of the whole sample
/// buffer: the values before and after are equal as multisets.
pub proof fn lemma_band_interleave_preserves_multiset(
    new: Seq<u32>,
    old: Seq<u32>,
    start: int,
    len: int,
)
    requires
        new.len() == old.len(),
        0 <= start,
        0 <= len,
        start + 3 * len <= new.len(),
        spec_band_interleaved(new, old, start, len),
        forall|j: int|
            0 <= j < new.len() && !(start <= j < start + 3 * len) ==> new[j] == old[j],
    ensures
        new.to_multiset() =~= old.to_multiset(),
{
    broadcast use vstd::seq_lib::group_to_multiset_ensures;

    let prefix = old.subrange(0, start);
    let suffix = old.subrange(start + 3 * len, old.len() as int);
    let band_old = old.subrange(start, start + 3 * len);
    let band_new = new.subrange(start, start + 3 * len);

    let w0 = old.subrange(start, start + len);
    let w1 = old.subrange(start + len, start + 2 * len);
    let w2 = old.subrange(start + 2 * len, start + 3 * len);
    assert(band_old =~= w0 + w1 + w2);
    assert forall|k: int| 0 <= k < len implies #[trigger] band_new[3 * k] == w0[k] && band_new[3
        * k + 1] == w1[k] && band_new[3 * k + 2] == w2[k] by {
        assert(new[start + 3 * k] == old[start + k]);
        assert(new[start + 3 * k + 1] == old[start + len + k]);
        assert(new[start + 3 * k + 2] == old[start + 2 * len + k]);
    }
    lemma_interleave3_multiset(w0, w1, w2, band_new);

    assert(old =~= prefix + band_old + suffix);
    assert(new =~= prefix + band_new + suffix);
    lemma_multiset_commutative(prefix + band_old, suffix);
    lemma_multiset_commutative(prefix, band_old);
    lemma_multiset_commutative(prefix + band_new, suffix);
    lemma_multiset_commutative(prefix, band_new);
    assert(prefix + band_old + suffix =~= (prefix + band_old) + suffix);
    assert(prefix + band_new + suffix =~= (prefix + band_new) + suffix);
    assert(new.to_multiset() =~= old.to_multiset());
}

} // verus!
