//! Scale-factor decoding (part2 of the main_data).
//!
//! MPEG 1 selects a pair of bit widths (slen1, slen2) through a 16-entry
//! table and splits the bands by block type, optionally sharing scale
//! factors between the two granules of a frame through the SCFSI flags.
//! MPEG 2 and 2.5 decompose the 9-bit scalefac_compress arithmetically into
//! four (slen, count) partitions that fill the scale factors contiguously.

use vstd::arithmetic::power2::{lemma2_to64, pow2};
use vstd::prelude::*;

use crate::bits::{lemma_bits_val_bound, spec_bits_val, BitReader};
use crate::error::Error;
use crate::sideinfo::{BlockType, GranuleChannel};
use crate::tables::{SCALE_FACTOR_MPEG2_NSFB, SCALE_FACTOR_SLEN};
use vstd::arithmetic::power2::lemma_pow2_strictly_increases;

verus! {

/// The value of an `slen`-bit scale factor read at bit `pos`.
pub open spec fn spec_sf_val(s: Seq<u8>, pos: int, slen: int) -> u8 {
    spec_bits_val(s, pos, slen as nat) as u8
}

/// Reads `count` scale factors of `slen` bits each into
/// `sf[start..start + count]`, leaving every other entry untouched.
#[verifier::loop_isolation(false)]
fn read_sf_run(
    bs: &mut BitReader,
    sf: &mut [u8; 39],
    start: usize,
    count: usize,
    slen: u32,
) -> (r: Result<(), Error>)
    requires
        old(bs).wf(),
        start + count <= 39,
        0 < slen <= 5,
    ensures
        final(bs).wf(),
        final(bs).data() == old(bs).data(),
        ({
            let s = old(bs).data();
            let p = old(bs).spec_pos();
            let n = s.len() * 8;
            if p + count * slen <= n {
                &&& r == Ok::<(), Error>(())
                &&& final(bs).spec_pos() == p + count * slen
                &&& (forall|i: int|
                    start <= i < start + count ==> final(sf)[i] == spec_sf_val(
                        s,
                        p + (i - start) * slen,
                        slen as int,
                    ))
                &&& (forall|i: int|
                    start <= i < start + count ==> (final(sf)[i] as nat) < pow2(slen as nat))
            } else {
                r == Err::<(), Error>(Error::BitstreamExhausted)
            }
        }),
        forall|i: int| 0 <= i < 39 && !(start <= i < start + count) ==> final(sf)[i] == old(sf)[i],
{
    let ghost s = old(bs).data();
    let ghost p = old(bs).spec_pos();
    proof {
        assert(0 * slen == 0) by (nonlinear_arith);
    }
    let mut k: usize = 0;
    while k < count
        invariant
            bs.wf(),
            bs.data() == s,
            k <= count,
            start + count <= 39,
            0 < slen <= 5,
            bs.spec_pos() == p + k * slen,
            p + k * slen <= s.len() * 8,
            forall|i: int|
                start <= i < start + k ==> sf[i] == spec_sf_val(s, p + (i - start) * slen, slen as int),
            forall|i: int| start <= i < start + k ==> (sf[i] as nat) < pow2(slen as nat),
            forall|i: int| 0 <= i < 39 && !(start <= i < start + k) ==> sf[i] == old(sf)[i],
        decreases count - k,
    {
        proof {
            assert((k + 1) * slen == k * slen + slen) by (nonlinear_arith);
            lemma_bits_val_bound(s, p + k * slen, slen as nat);
            lemma2_to64();
            if k + 1 < count {
                assert((k + 1) * slen <= count * slen) by (nonlinear_arith)
                    requires
                        k + 1 <= count && slen >= 0,
                ;
            }
            assert(k * slen + slen <= count * slen) by (nonlinear_arith)
                requires
                    k + 1 <= count && slen >= 0,
            ;
        }
        let v = match bs.read_bits_leq32(slen) {
            Ok(v) => v,
            Err(e) => {
                return Err(e);
            },
        };
        sf[start + k] = v as u8;
        k = k + 1;
    }
    proof {
        assert(count * slen == k * slen);
    }
    Ok(())
}

/// Copies `count` scale factors from `src` into `sf[start..start + count]`,
/// leaving every other entry untouched. This serves the SCFSI sharing of
/// MPEG 1, where granule 1 reuses the values of granule 0.
#[verifier::loop_isolation(false)]
fn copy_sf_run(sf: &mut [u8; 39], src: &[u8; 39], start: usize, count: usize)
    requires
        start + count <= 39,
    ensures
        forall|i: int| start <= i < start + count ==> final(sf)[i] == src[i],
        forall|i: int| 0 <= i < 39 && !(start <= i < start + count) ==> final(sf)[i] == old(sf)[i],
{
    let mut k: usize = 0;
    while k < count
        invariant
            k <= count,
            start + count <= 39,
            forall|i: int| start <= i < start + k ==> sf[i] == src[i],
            forall|i: int| 0 <= i < 39 && !(start <= i < start + k) ==> sf[i] == old(sf)[i],
        decreases count - k,
    {
        sf[start + k] = src[start + k];
        k = k + 1;
    }
}

/// `pow2` is monotone.
proof fn lemma_pow2_le(a: nat, b: nat)
    requires
        a <= b,
    ensures
        pow2(a) <= pow2(b),
{
    if a < b {
        lemma_pow2_strictly_increases(a, b);
    }
}

/// Every field of `b` except the scale factors equals the one of `a`.
pub open spec fn spec_only_scalefacs_changed(a: GranuleChannel, b: GranuleChannel) -> bool {
    &&& b.part2_3_length == a.part2_3_length
    &&& b.big_values == a.big_values
    &&& b.global_gain == a.global_gain
    &&& b.scalefac_compress == a.scalefac_compress
    &&& b.block_type == a.block_type
    &&& b.subblock_gain == a.subblock_gain
    &&& b.table_select == a.table_select
    &&& b.region1_start == a.region1_start
    &&& b.region2_start == a.region2_start
    &&& b.preflag == a.preflag
    &&& b.scalefac_scale == a.scalefac_scale
    &&& b.count1table_select == a.count1table_select
    &&& b.rzero == a.rzero
}

/// The first scale-factor bit width of an MPEG 1 scalefac_compress value.
pub open spec fn spec_sf1_slen1(sfc: int) -> int {
    SCALE_FACTOR_SLEN[sfc].0 as int
}

/// The second scale-factor bit width of an MPEG 1 scalefac_compress value.
pub open spec fn spec_sf1_slen2(sfc: int) -> int {
    SCALE_FACTOR_SLEN[sfc].1 as int
}

/// The first scale factor of long-block range `k` (MPEG 1).
pub open spec fn spec_sf1_range_start(k: int) -> int {
    if k == 0 {
        0int
    } else if k == 1 {
        6int
    } else if k == 2 {
        11int
    } else {
        16int
    }
}

/// The number of scale factors in long-block range `k` (MPEG 1).
pub open spec fn spec_sf1_range_count(k: int) -> int {
    if k == 0 {
        6int
    } else {
        5int
    }
}

/// The bit width used for long-block range `k` (MPEG 1).
pub open spec fn spec_sf1_range_slen(k: int, sfc: int) -> int {
    if k < 2 {
        spec_sf1_slen1(sfc)
    } else {
        spec_sf1_slen2(sfc)
    }
}

/// Whether long-block range `k` is read from the bitstream rather than
/// shared or left zero.
pub open spec fn spec_sf1_range_read(k: int, sfc: int, use_scfsi: bool, scfsi: [bool; 4]) -> bool {
    spec_sf1_range_slen(k, sfc) > 0 && !(use_scfsi && scfsi[k])
}

/// The bits consumed by long-block range `k` (MPEG 1).
pub open spec fn spec_sf1_range_bits(k: int, sfc: int, use_scfsi: bool, scfsi: [bool; 4]) -> int {
    if spec_sf1_range_read(k, sfc, use_scfsi, scfsi) {
        spec_sf1_range_count(k) * spec_sf1_range_slen(k, sfc)
    } else {
        0int
    }
}

/// The bit offset of long-block range `k` relative to the first scale-factor
/// bit (MPEG 1).
pub open spec fn spec_sf1_range_offset(k: int, sfc: int, use_scfsi: bool, scfsi: [bool; 4]) -> int {
    (if k >= 1 {
        spec_sf1_range_bits(0, sfc, use_scfsi, scfsi)
    } else {
        0int
    }) + (if k >= 2 {
        spec_sf1_range_bits(1, sfc, use_scfsi, scfsi)
    } else {
        0int
    }) + (if k >= 3 {
        spec_sf1_range_bits(2, sfc, use_scfsi, scfsi)
    } else {
        0int
    }) + (if k >= 4 {
        spec_sf1_range_bits(3, sfc, use_scfsi, scfsi)
    } else {
        0int
    })
}

/// The number of scale factors read with slen1 in a short block: 17 when
/// mixed (8 long bands plus 3 bands of 3 windows), 18 otherwise (6 bands of
/// 3 windows).
pub open spec fn spec_sf1_short_n1(is_mixed: bool) -> int {
    if is_mixed {
        17int
    } else {
        18int
    }
}

/// The total part2 bits of one MPEG 1 channel.
pub open spec fn spec_sf1_total_bits(
    bt: BlockType,
    sfc: int,
    use_scfsi: bool,
    scfsi: [bool; 4],
) -> int {
    match bt {
        BlockType::Short { is_mixed } => spec_sf1_short_n1(is_mixed) * spec_sf1_slen1(sfc) + 18
            * spec_sf1_slen2(sfc),
        _ => spec_sf1_range_offset(4, sfc, use_scfsi, scfsi),
    }
}

/// Reads the two slen1/slen2 partitions of a short or mixed block.
#[verifier::rlimit(100)]
fn read_sf1_short(
    bs: &mut BitReader,
    is_mixed: bool,
    slen1: u32,
    slen2: u32,
    sf: &mut [u8; 39],
) -> (r: Result<u32, Error>)
    requires
        old(bs).wf(),
        slen1 <= 4,
        slen2 <= 4,
        forall|i: int| 0 <= i < 39 ==> old(sf)[i] == 0,
    ensures
        final(bs).wf(),
        final(bs).data() == old(bs).data(),
        ({
            let s = old(bs).data();
            let p = old(bs).spec_pos();
            let n = s.len() * 8;
            let n1 = spec_sf1_short_n1(is_mixed);
            let total = n1 * slen1 + 18 * slen2;
            if p + total <= n {
                &&& r == Ok::<u32, Error>(total as u32)
                &&& final(bs).spec_pos() == p + total
                &&& (forall|i: int|
                    0 <= i < n1 ==> final(sf)[i] == (if slen1 > 0 {
                        spec_sf_val(s, p + i * slen1, slen1 as int)
                    } else {
                        0u8
                    }))
                &&& (forall|i: int|
                    n1 <= i < n1 + 18 ==> final(sf)[i] == (if slen2 > 0 {
                        spec_sf_val(s, p + n1 * slen1 + (i - n1) * slen2, slen2 as int)
                    } else {
                        0u8
                    }))
                &&& (forall|i: int| n1 + 18 <= i < 39 ==> final(sf)[i] == 0)
                &&& (forall|i: int| 0 <= i < 39 ==> final(sf)[i] < 16)
            } else {
                r == Err::<u32, Error>(Error::BitstreamExhausted)
            }
        }),
{
    proof {
        lemma2_to64();
        lemma_pow2_le(slen1 as nat, 4nat);
        lemma_pow2_le(slen2 as nat, 4nat);
    }
    // A mixed block has one long partition of 8 bands followed by a short
    // partition of 3 bands over 3 windows, all of width slen1 (17 scale
    // factors). A non-mixed block has 6 bands over 3 windows (18 scale
    // factors) of width slen1. Both end with 6 short bands over 3 windows
    // of width slen2.
    let n1: usize = if is_mixed {
        17
    } else {
        18
    };
    let mut bits_read: u32 = 0;

    if slen1 > 0 {
        match read_sf_run(bs, sf, 0, n1, slen1) {
            Ok(()) => (),
            Err(e) => {
                return Err(e);
            },
        };
        bits_read = bits_read + (n1 as u32) * slen1;
    }
    if slen2 > 0 {
        match read_sf_run(bs, sf, n1, 18, slen2) {
            Ok(()) => (),
            Err(e) => {
                return Err(e);
            },
        };
        bits_read = bits_read + 18 * slen2;
    }
    Ok(bits_read)
}

/// Handles one long-block band range: skipped when `slen` is zero, copied
/// from granule 0 when its SCFSI flag applies, read from the bitstream
/// otherwise. Returns the bits consumed.
#[verifier::rlimit(100)]
fn sf1_one_range(
    bs: &mut BitReader,
    share: bool,
    gr0_scalefacs: &[u8; 39],
    start: usize,
    count: usize,
    slen: u32,
    sf: &mut [u8; 39],
) -> (r: Result<u32, Error>)
    requires
        old(bs).wf(),
        slen <= 5,
        start + count <= 39,
        forall|i: int| 0 <= i < 39 ==> gr0_scalefacs[i] < 16,
    ensures
        final(bs).wf(),
        final(bs).data() == old(bs).data(),
        forall|i: int|
            0 <= i < 39 && !(start <= i < start + count) ==> (#[trigger] final(sf)[i]) == old(
                sf,
            )[i],
        slen == 0 ==> r == Ok::<u32, Error>(0) && final(bs).spec_pos() == old(bs).spec_pos() && (
        forall|i: int|
            start <= i < start + count ==> (#[trigger] final(sf)[i]) == old(sf)[i]),
        slen > 0 && share ==> r == Ok::<u32, Error>(0) && final(bs).spec_pos() == old(
            bs,
        ).spec_pos() && (forall|i: int|
            start <= i < start + count ==> (#[trigger] final(sf)[i]) == gr0_scalefacs[i]),
        slen > 0 && !share && old(bs).spec_pos() + count * slen <= old(bs).data().len() * 8 ==> r
            == Ok::<u32, Error>((count * slen) as u32) && final(bs).spec_pos() == old(bs).spec_pos()
            + count * slen && (forall|i: int|
            start <= i < start + count ==> (#[trigger] final(sf)[i]) == spec_sf_val(
                old(bs).data(),
                old(bs).spec_pos() + (i - start) * slen,
                slen as int,
            )) && (forall|i: int| start <= i < start + count ==> (#[trigger] final(sf)[i]) < 32),
        slen > 0 && slen <= 4 && !share && old(bs).spec_pos() + count * slen <= old(
            bs,
        ).data().len() * 8 ==> (forall|i: int|
            start <= i < start + count ==> (#[trigger] final(sf)[i]) < 16),
        slen > 0 && !share && old(bs).spec_pos() + count * slen > old(bs).data().len() * 8 ==> r
            == Err::<u32, Error>(Error::BitstreamExhausted),
{
    if slen == 0 {
        return Ok(0);
    }
    if share {
        copy_sf_run(sf, gr0_scalefacs, start, count);
        return Ok(0);
    }
    proof {
        lemma2_to64();
        lemma_pow2_le(slen as nat, 5nat);
        if slen <= 4 {
            lemma_pow2_le(slen as nat, 4nat);
        }
    }
    match read_sf_run(bs, sf, start, count, slen) {
        Ok(()) => (),
        Err(e) => {
            return Err(e);
        },
    };
    Ok((count as u32) * slen)
}

/// The bits consumed by long-block range `k` given the two bit widths: zero
/// when the range is shared through SCFSI or its width is zero.
pub open spec fn spec_sf1_long_b(
    k: int,
    slen1: u32,
    slen2: u32,
    use_scfsi: bool,
    scfsi: [bool; 4],
) -> int {
    let slen = if k < 2 {
        slen1 as int
    } else {
        slen2 as int
    };
    let cnt = if k == 0 {
        6int
    } else {
        5int
    };
    if slen > 0 && !(use_scfsi && scfsi[k]) {
        cnt * slen
    } else {
        0int
    }
}

/// The total bits consumed by the four long-block ranges.
pub open spec fn spec_sf1_long_total(slen1: u32, slen2: u32, use_scfsi: bool, scfsi: [bool; 4]) -> int {
    spec_sf1_long_b(0, slen1, slen2, use_scfsi, scfsi) + spec_sf1_long_b(
        1,
        slen1,
        slen2,
        use_scfsi,
        scfsi,
    ) + spec_sf1_long_b(2, slen1, slen2, use_scfsi, scfsi) + spec_sf1_long_b(
        3,
        slen1,
        slen2,
        use_scfsi,
        scfsi,
    )
}

/// Reads or shares the four long-block band ranges.
#[verifier::rlimit(100)]
fn read_sf1_long(
    bs: &mut BitReader,
    use_scfsi: bool,
    scfsi: &[bool; 4],
    gr0_scalefacs: &[u8; 39],
    slen1: u32,
    slen2: u32,
    sf: &mut [u8; 39],
) -> (r: Result<u32, Error>)
    requires
        old(bs).wf(),
        slen1 <= 4,
        slen2 <= 4,
        forall|i: int| 0 <= i < 39 ==> old(sf)[i] == 0,
        forall|i: int| 0 <= i < 39 ==> gr0_scalefacs[i] < 16,
    ensures
        final(bs).wf(),
        final(bs).data() == old(bs).data(),
        old(bs).spec_pos() + spec_sf1_long_total(slen1, slen2, use_scfsi, *scfsi) <= old(
            bs,
        ).data().len() * 8 ==> {
            &&& r == Ok::<u32, Error>(
                spec_sf1_long_total(slen1, slen2, use_scfsi, *scfsi) as u32,
            )
            &&& final(bs).spec_pos() == old(bs).spec_pos() + spec_sf1_long_total(
                slen1,
                slen2,
                use_scfsi,
                *scfsi,
            )
        },
        old(bs).spec_pos() + spec_sf1_long_total(slen1, slen2, use_scfsi, *scfsi) <= old(
            bs,
        ).data().len() * 8 ==> (forall|i: int|
            0 <= i < 6 ==> final(sf)[i] == (if slen1 == 0 {
                0u8
            } else if use_scfsi && scfsi[0] {
                gr0_scalefacs[i]
            } else {
                spec_sf_val(old(bs).data(), old(bs).spec_pos() + i * slen1, slen1 as int)
            })),
        old(bs).spec_pos() + spec_sf1_long_total(slen1, slen2, use_scfsi, *scfsi) <= old(
            bs,
        ).data().len() * 8 ==> (forall|i: int|
            6 <= i < 11 ==> final(sf)[i] == (if slen1 == 0 {
                0u8
            } else if use_scfsi && scfsi[1] {
                gr0_scalefacs[i]
            } else {
                spec_sf_val(
                    old(bs).data(),
                    old(bs).spec_pos() + spec_sf1_long_b(0, slen1, slen2, use_scfsi, *scfsi) + (i
                        - 6) * slen1,
                    slen1 as int,
                )
            })),
        old(bs).spec_pos() + spec_sf1_long_total(slen1, slen2, use_scfsi, *scfsi) <= old(
            bs,
        ).data().len() * 8 ==> (forall|i: int|
            11 <= i < 16 ==> final(sf)[i] == (if slen2 == 0 {
                0u8
            } else if use_scfsi && scfsi[2] {
                gr0_scalefacs[i]
            } else {
                spec_sf_val(
                    old(bs).data(),
                    old(bs).spec_pos() + spec_sf1_long_b(0, slen1, slen2, use_scfsi, *scfsi)
                        + spec_sf1_long_b(1, slen1, slen2, use_scfsi, *scfsi) + (i - 11) * slen2,
                    slen2 as int,
                )
            })),
        old(bs).spec_pos() + spec_sf1_long_total(slen1, slen2, use_scfsi, *scfsi) <= old(
            bs,
        ).data().len() * 8 ==> (forall|i: int|
            16 <= i < 21 ==> final(sf)[i] == (if slen2 == 0 {
                0u8
            } else if use_scfsi && scfsi[3] {
                gr0_scalefacs[i]
            } else {
                spec_sf_val(
                    old(bs).data(),
                    old(bs).spec_pos() + spec_sf1_long_b(0, slen1, slen2, use_scfsi, *scfsi)
                        + spec_sf1_long_b(1, slen1, slen2, use_scfsi, *scfsi) + spec_sf1_long_b(
                        2,
                        slen1,
                        slen2,
                        use_scfsi,
                        *scfsi,
                    ) + (i - 16) * slen2,
                    slen2 as int,
                )
            })),
        old(bs).spec_pos() + spec_sf1_long_total(slen1, slen2, use_scfsi, *scfsi) <= old(
            bs,
        ).data().len() * 8 ==> (forall|i: int| 21 <= i < 39 ==> final(sf)[i] == 0),
        old(bs).spec_pos() + spec_sf1_long_total(slen1, slen2, use_scfsi, *scfsi) <= old(
            bs,
        ).data().len() * 8 ==> (forall|i: int| 0 <= i < 39 ==> final(sf)[i] < 16),
        old(bs).spec_pos() + spec_sf1_long_total(slen1, slen2, use_scfsi, *scfsi) > old(
            bs,
        ).data().len() * 8 ==> r == Err::<u32, Error>(Error::BitstreamExhausted),
{
    let mut bits_read: u32 = 0;

    // Range 0: bands [0, 6).
    let b = match sf1_one_range(bs, use_scfsi && scfsi[0], gr0_scalefacs, 0, 6, slen1, sf) {
        Ok(b) => b,
        Err(e) => {
            return Err(e);
        },
    };
    bits_read = bits_read + b;
    proof {
        assert forall|i: int| 0 <= i < 6 implies sf[i] < 16 by {}
    }
    // Range 1: bands [6, 11).
    let b = match sf1_one_range(bs, use_scfsi && scfsi[1], gr0_scalefacs, 6, 5, slen1, sf) {
        Ok(b) => b,
        Err(e) => {
            return Err(e);
        },
    };
    bits_read = bits_read + b;
    proof {
        assert forall|i: int| 6 <= i < 11 implies sf[i] < 16 by {}
    }
    // Range 2: bands [11, 16).
    let b = match sf1_one_range(bs, use_scfsi && scfsi[2], gr0_scalefacs, 11, 5, slen2, sf) {
        Ok(b) => b,
        Err(e) => {
            return Err(e);
        },
    };
    bits_read = bits_read + b;
    proof {
        assert forall|i: int| 11 <= i < 16 implies sf[i] < 16 by {}
    }
    // Range 3: bands [16, 21).
    let b = match sf1_one_range(bs, use_scfsi && scfsi[3], gr0_scalefacs, 16, 5, slen2, sf) {
        Ok(b) => b,
        Err(e) => {
            return Err(e);
        },
    };
    bits_read = bits_read + b;
    proof {
        assert forall|i: int| 16 <= i < 21 implies sf[i] < 16 by {}
        assert(forall|i: int| 21 <= i < 39 ==> sf[i] == 0);
    }
    Ok(bits_read)
}

/// The part2 bit count of an MPEG 1 channel is never negative.
pub proof fn lemma_sf1_total_nonneg(bt: BlockType, sfc: int, use_scfsi: bool, scfsi: [bool; 4])
    ensures
        spec_sf1_total_bits(bt, sfc, use_scfsi, scfsi) >= 0,
{
}

/// The part2 bit count of an MPEG 2 channel is never negative.
pub proof fn lemma_sf2_total_nonneg(sfc: int, intensity: bool, bt: BlockType)
    requires
        0 <= sfc < 512,
    ensures
        spec_sf2_total_bits(sfc, intensity, bt) >= 0,
{
    assert forall|j: int| 0 <= j < 4 implies #[trigger] spec_sf2_slen(j, sfc, intensity)
        * spec_sf2_nsfb(j, sfc, intensity, bt) >= 0 by {
        let a = spec_sf2_slen(j, sfc, intensity);
        let b = spec_sf2_nsfb(j, sfc, intensity, bt);
        assert(a >= 0);
        assert(b >= 0);
        assert(a * b >= 0) by (nonlinear_arith)
            requires
                a >= 0 && b >= 0,
        ;
    }
}

/// The scale factors of an MPEG 1 channel as its reader leaves them, given
/// the bits of `s` from bit `p`: read values equal their bit fields,
/// SCFSI-shared ranges equal granule 0's values, everything else is zero.
pub open spec fn spec_sf1_scalefacs(
    sf: [u8; 39],
    bt: BlockType,
    sfc: int,
    s: Seq<u8>,
    p: int,
    use_scfsi: bool,
    scfsi: [bool; 4],
    gr0: [u8; 39],
) -> bool {
    let slen1 = spec_sf1_slen1(sfc);
    let slen2 = spec_sf1_slen2(sfc);
    match bt {
        BlockType::Short { is_mixed } => {
            let n1 = spec_sf1_short_n1(is_mixed);
            &&& (forall|i: int|
                0 <= i < n1 ==> sf[i] == (if slen1 > 0 {
                    spec_sf_val(s, p + i * slen1, slen1)
                } else {
                    0u8
                }))
            &&& (forall|i: int|
                n1 <= i < n1 + 18 ==> sf[i] == (if slen2 > 0 {
                    spec_sf_val(s, p + n1 * slen1 + (i - n1) * slen2, slen2)
                } else {
                    0u8
                }))
            &&& (forall|i: int| n1 + 18 <= i < 39 ==> sf[i] == 0)
        },
        _ => {
            &&& (forall|i: int|
                0 <= i < 6 ==> sf[i] == (if slen1 == 0 {
                    0u8
                } else if use_scfsi && scfsi[0] {
                    gr0[i]
                } else {
                    spec_sf_val(s, p + i * slen1, slen1)
                }))
            &&& (forall|i: int|
                6 <= i < 11 ==> sf[i] == (if slen1 == 0 {
                    0u8
                } else if use_scfsi && scfsi[1] {
                    gr0[i]
                } else {
                    spec_sf_val(
                        s,
                        p + spec_sf1_range_offset(1, sfc, use_scfsi, scfsi) + (i - 6) * slen1,
                        slen1,
                    )
                }))
            &&& (forall|i: int|
                11 <= i < 16 ==> sf[i] == (if slen2 == 0 {
                    0u8
                } else if use_scfsi && scfsi[2] {
                    gr0[i]
                } else {
                    spec_sf_val(
                        s,
                        p + spec_sf1_range_offset(2, sfc, use_scfsi, scfsi) + (i - 11) * slen2,
                        slen2,
                    )
                }))
            &&& (forall|i: int|
                16 <= i < 21 ==> sf[i] == (if slen2 == 0 {
                    0u8
                } else if use_scfsi && scfsi[3] {
                    gr0[i]
                } else {
                    spec_sf_val(
                        s,
                        p + spec_sf1_range_offset(3, sfc, use_scfsi, scfsi) + (i - 16) * slen2,
                        slen2,
                    )
                }))
            &&& (forall|i: int| 21 <= i < 39 ==> sf[i] == 0)
        },
    }
}

/// Reads the scale factors of one channel of one granule of an MPEG 1
/// frame.
///
/// `use_scfsi` is true for the second granule, where a set SCFSI flag makes
/// a long-block band range reuse granule 0's values (`gr0_scalefacs`)
/// instead of reading them. Returns the number of bits read, which excludes
/// shared and zero-width ranges. Every written scale factor equals the value
/// of its bit field, every shared one equals granule 0's, and all remaining
/// entries stay zero; every scale factor fits 4 bits.
#[verifier::rlimit(100)]
#[verifier::spinoff_prover]
pub fn l3_read_scale_factors_mpeg1(
    bs: &mut BitReader,
    use_scfsi: bool,
    scfsi: &[bool; 4],
    gr0_scalefacs: &[u8; 39],
    channel: &mut GranuleChannel,
) -> (r: Result<u32, Error>)
    requires
        old(bs).wf(),
        old(channel).scalefac_compress < 16,
        forall|i: int| 0 <= i < 39 ==> old(channel).scalefacs[i] == 0,
        forall|i: int| 0 <= i < 39 ==> gr0_scalefacs[i] < 16,
    ensures
        final(bs).wf(),
        final(bs).data() == old(bs).data(),
        spec_only_scalefacs_changed(*old(channel), *final(channel)),
        ({
            let s = old(bs).data();
            let p = old(bs).spec_pos();
            let n = s.len() * 8;
            let sfc = old(channel).scalefac_compress as int;
            let slen1 = spec_sf1_slen1(sfc);
            let slen2 = spec_sf1_slen2(sfc);
            let total = spec_sf1_total_bits(old(channel).block_type, sfc, use_scfsi, *scfsi);
            if p + total <= n {
                &&& r == Ok::<u32, Error>(total as u32)
                &&& final(bs).spec_pos() == p + total
                &&& (forall|i: int| 0 <= i < 39 ==> final(channel).scalefacs[i] < 16)
                &&& spec_sf1_scalefacs(
                    final(channel).scalefacs,
                    old(channel).block_type,
                    sfc,
                    s,
                    p,
                    use_scfsi,
                    *scfsi,
                    *gr0_scalefacs,
                )
            } else {
                r == Err::<u32, Error>(Error::BitstreamExhausted)
            }
        }),
{
    proof {
        assert(forall|j: int|
            0 <= j < 16 ==> #[trigger] SCALE_FACTOR_SLEN[j].0 <= 4 && SCALE_FACTOR_SLEN[j].1 <= 4);
    }

    // For MPEG 1, scalefac_compress is a 4-bit index into a scale-factor
    // bit-length lookup table.
    let slens = SCALE_FACTOR_SLEN[channel.scalefac_compress as usize];
    let slen1 = slens.0;
    let slen2 = slens.1;

    if let BlockType::Short { is_mixed } = channel.block_type {
        read_sf1_short(bs, is_mixed, slen1, slen2, &mut channel.scalefacs)
    } else {
        read_sf1_long(bs, use_scfsi, scfsi, gr0_scalefacs, slen1, slen2, &mut channel.scalefacs)
    }
}

/// The scale-factor bit width of MPEG 2 partition `j`, from the piecewise
/// decomposition of scalefac_compress. For a non-first channel under
/// intensity stereo, `sfc` is first halved and an alternative decomposition
/// applies.
pub open spec fn spec_sf2_slen(j: int, sfc: int, intensity: bool) -> int {
    if intensity {
        let c = sfc / 2;
        if c <= 179 {
            if j == 0 {
                c / 36
            } else if j == 1 {
                (c % 36) / 6
            } else if j == 2 {
                (c % 36) % 6
            } else {
                0int
            }
        } else if c <= 243 {
            if j == 0 {
                ((c - 180) % 64) / 16
            } else if j == 1 {
                ((c - 180) % 16) / 4
            } else if j == 2 {
                (c - 180) % 4
            } else {
                0int
            }
        } else {
            if j == 0 {
                (c - 244) / 3
            } else if j == 1 {
                (c - 244) % 3
            } else {
                0int
            }
        }
    } else {
        if sfc <= 399 {
            if j == 0 {
                (sfc / 16) / 5
            } else if j == 1 {
                (sfc / 16) % 5
            } else if j == 2 {
                (sfc % 16) / 4
            } else {
                sfc % 4
            }
        } else if sfc <= 499 {
            if j == 0 {
                ((sfc - 400) / 4) / 5
            } else if j == 1 {
                ((sfc - 400) / 4) % 5
            } else if j == 2 {
                (sfc - 400) % 4
            } else {
                0int
            }
        } else {
            if j == 0 {
                (sfc - 500) / 3
            } else if j == 1 {
                (sfc - 500) % 3
            } else {
                0int
            }
        }
    }
}

/// The row of the MPEG 2 partition-size table selected by
/// scalefac_compress: rows 0 to 2 serve the intensity-stereo channel, rows
/// 3 to 5 the others.
pub open spec fn spec_sf2_row(sfc: int, intensity: bool) -> int {
    if intensity {
        let c = sfc / 2;
        if c <= 179 {
            0int
        } else if c <= 243 {
            1int
        } else {
            2int
        }
    } else {
        if sfc <= 399 {
            3int
        } else if sfc <= 499 {
            4int
        } else {
            5int
        }
    }
}

/// The block class of a channel: 0 for long, start and end blocks, 1 for
/// short, 2 for mixed short blocks.
pub open spec fn spec_sf2_block_index(bt: BlockType) -> int {
    match bt {
        BlockType::Short { is_mixed: true } => 2int,
        BlockType::Short { is_mixed: false } => 1int,
        _ => 0int,
    }
}

/// The number of scale factors in MPEG 2 partition `j`.
pub open spec fn spec_sf2_nsfb(j: int, sfc: int, intensity: bool, bt: BlockType) -> int {
    SCALE_FACTOR_MPEG2_NSFB[spec_sf2_row(sfc, intensity)][spec_sf2_block_index(bt)][j] as int
}

/// The index of the first scale factor of MPEG 2 partition `j`.
pub open spec fn spec_sf2_start(j: int, sfc: int, intensity: bool, bt: BlockType) -> int {
    (if j >= 1 {
        spec_sf2_nsfb(0, sfc, intensity, bt)
    } else {
        0int
    }) + (if j >= 2 {
        spec_sf2_nsfb(1, sfc, intensity, bt)
    } else {
        0int
    }) + (if j >= 3 {
        spec_sf2_nsfb(2, sfc, intensity, bt)
    } else {
        0int
    }) + (if j >= 4 {
        spec_sf2_nsfb(3, sfc, intensity, bt)
    } else {
        0int
    })
}

/// The bit offset of MPEG 2 partition `j` relative to the first part2 bit.
pub open spec fn spec_sf2_offset(j: int, sfc: int, intensity: bool, bt: BlockType) -> int {
    (if j >= 1 {
        spec_sf2_slen(0, sfc, intensity) * spec_sf2_nsfb(0, sfc, intensity, bt)
    } else {
        0int
    }) + (if j >= 2 {
        spec_sf2_slen(1, sfc, intensity) * spec_sf2_nsfb(1, sfc, intensity, bt)
    } else {
        0int
    }) + (if j >= 3 {
        spec_sf2_slen(2, sfc, intensity) * spec_sf2_nsfb(2, sfc, intensity, bt)
    } else {
        0int
    }) + (if j >= 4 {
        spec_sf2_slen(3, sfc, intensity) * spec_sf2_nsfb(3, sfc, intensity, bt)
    } else {
        0int
    })
}

/// The total part2 bits of one MPEG 2 channel.
pub open spec fn spec_sf2_total_bits(sfc: int, intensity: bool, bt: BlockType) -> int {
    spec_sf2_offset(4, sfc, intensity, bt)
}

/// Reads the four contiguous scale-factor partitions of an MPEG 2 channel,
/// given their widths and counts.
#[verifier::rlimit(100)]
fn read_sf2_partitions(
    bs: &mut BitReader,
    s0: u32,
    n0: usize,
    s1: u32,
    n1: usize,
    s2: u32,
    n2: usize,
    s3: u32,
    n3: usize,
    sf: &mut [u8; 39],
) -> (r: Result<u32, Error>)
    requires
        old(bs).wf(),
        s0 <= 5 && s1 <= 5 && s2 <= 5 && s3 <= 5,
        n0 + n1 + n2 + n3 <= 39,
        forall|i: int| 0 <= i < 39 ==> old(sf)[i] == 0,
    ensures
        final(bs).wf(),
        final(bs).data() == old(bs).data(),
        ({
            let p = old(bs).spec_pos();
            let n = old(bs).data().len() * 8;
            let total = s0 * n0 + s1 * n1 + s2 * n2 + s3 * n3;
            p + total > n ==> r == Err::<u32, Error>(Error::BitstreamExhausted)
        }),
        ({
            let p = old(bs).spec_pos();
            let n = old(bs).data().len() * 8;
            let total = s0 * n0 + s1 * n1 + s2 * n2 + s3 * n3;
            p + total <= n ==> r == Ok::<u32, Error>(total as u32) && final(bs).spec_pos() == p
                + total
        }),
        old(bs).spec_pos() + s0 * n0 + s1 * n1 + s2 * n2 + s3 * n3 <= old(bs).data().len() * 8
            ==> (forall|i: int|
            0 <= i < n0 ==> (#[trigger] final(sf)[i]) == (if s0 > 0 {
                spec_sf_val(old(bs).data(), old(bs).spec_pos() + i * s0, s0 as int)
            } else {
                0u8
            })),
        old(bs).spec_pos() + s0 * n0 + s1 * n1 + s2 * n2 + s3 * n3 <= old(bs).data().len() * 8
            ==> (forall|i: int|
            n0 <= i < n0 + n1 ==> (#[trigger] final(sf)[i]) == (if s1 > 0 {
                spec_sf_val(old(bs).data(), old(bs).spec_pos() + s0 * n0 + (i - n0) * s1, s1 as int)
            } else {
                0u8
            })),
        old(bs).spec_pos() + s0 * n0 + s1 * n1 + s2 * n2 + s3 * n3 <= old(bs).data().len() * 8
            ==> (forall|i: int|
            n0 + n1 <= i < n0 + n1 + n2 ==> (#[trigger] final(sf)[i]) == (if s2 > 0 {
                spec_sf_val(
                    old(bs).data(),
                    old(bs).spec_pos() + s0 * n0 + s1 * n1 + (i - n0 - n1) * s2,
                    s2 as int,
                )
            } else {
                0u8
            })),
        old(bs).spec_pos() + s0 * n0 + s1 * n1 + s2 * n2 + s3 * n3 <= old(bs).data().len() * 8
            ==> (forall|i: int|
            n0 + n1 + n2 <= i < n0 + n1 + n2 + n3 ==> (#[trigger] final(sf)[i]) == (if s3 > 0 {
                spec_sf_val(
                    old(bs).data(),
                    old(bs).spec_pos() + s0 * n0 + s1 * n1 + s2 * n2 + (i - n0 - n1 - n2) * s3,
                    s3 as int,
                )
            } else {
                0u8
            })),
        old(bs).spec_pos() + s0 * n0 + s1 * n1 + s2 * n2 + s3 * n3 <= old(bs).data().len() * 8
            ==> (forall|i: int|
            n0 + n1 + n2 + n3 <= i < 39 ==> (#[trigger] final(sf)[i]) == 0),
        old(bs).spec_pos() + s0 * n0 + s1 * n1 + s2 * n2 + s3 * n3 <= old(bs).data().len() * 8
            ==> (forall|i: int| 0 <= i < 39 ==> (#[trigger] final(sf)[i]) < 32),
        old(bs).spec_pos() + s0 * n0 + s1 * n1 + s2 * n2 + s3 * n3 <= old(bs).data().len() * 8 && s0
            <= 4 && s1 <= 4 && s2 <= 4 && s3 <= 4 ==> (forall|i: int|
            0 <= i < 39 ==> (#[trigger] final(sf)[i]) < 16),
{
    proof {
        assert(s0 * n0 <= 195 && s1 * n1 <= 195 && s2 * n2 <= 195 && s3 * n3 <= 195)
            by (nonlinear_arith)
            requires
                s0 <= 5 && s1 <= 5 && s2 <= 5 && s3 <= 5 && n0 <= 39 && n1 <= 39 && n2 <= 39 && n3
                    <= 39,
        ;
        assert(n0 * s0 == s0 * n0 && n1 * s1 == s1 * n1 && n2 * s2 == s2 * n2 && n3 * s3 == s3
            * n3) by (nonlinear_arith);
    }
    let zeros = [0u8; 39];
    let mut bits_read: u32 = 0;

    let b = match sf1_one_range(bs, false, &zeros, 0, n0, s0, sf) {
        Ok(b) => b,
        Err(e) => {
            return Err(e);
        },
    };
    bits_read = bits_read + b;
    proof {
        assert forall|i: int| 0 <= i < n0 implies sf[i] < 32 by {}
    }
    let b = match sf1_one_range(bs, false, &zeros, n0, n1, s1, sf) {
        Ok(b) => b,
        Err(e) => {
            return Err(e);
        },
    };
    bits_read = bits_read + b;
    proof {
        assert forall|i: int| n0 <= i < n0 + n1 implies sf[i] < 32 by {}
    }
    let b = match sf1_one_range(bs, false, &zeros, n0 + n1, n2, s2, sf) {
        Ok(b) => b,
        Err(e) => {
            return Err(e);
        },
    };
    bits_read = bits_read + b;
    proof {
        assert forall|i: int| n0 + n1 <= i < n0 + n1 + n2 implies sf[i] < 32 by {}
    }
    let b = match sf1_one_range(bs, false, &zeros, n0 + n1 + n2, n3, s3, sf) {
        Ok(b) => b,
        Err(e) => {
            return Err(e);
        },
    };
    bits_read = bits_read + b;
    proof {
        assert forall|i: int| n0 + n1 + n2 <= i < n0 + n1 + n2 + n3 implies sf[i] < 32 by {}
        assert(forall|i: int|
            n0 + n1 + n2 + n3 <= i < 39 ==> (#[trigger] sf[i]) == 0);
        if s0 <= 4 && s1 <= 4 && s2 <= 4 && s3 <= 4 {
            assert forall|i: int| 0 <= i < 39 implies sf[i] < 16 by {}
        }
    }
    Ok(bits_read)
}

/// Decomposes an MPEG 2 scalefac_compress value into the four partition bit
/// widths and the partition-size table row.
fn sf2_decompose(sfc: u16, intensity: bool) -> (r: (u32, u32, u32, u32, usize))
    requires
        sfc < 512,
    ensures
        r.0 == spec_sf2_slen(0, sfc as int, intensity),
        r.1 == spec_sf2_slen(1, sfc as int, intensity),
        r.2 == spec_sf2_slen(2, sfc as int, intensity),
        r.3 == spec_sf2_slen(3, sfc as int, intensity),
        r.4 == spec_sf2_row(sfc as int, intensity),
        r.0 <= 5 && r.1 <= 5 && r.2 <= 5 && r.3 <= 5,
        !intensity ==> r.0 <= 4 && r.1 <= 4 && r.2 <= 4 && r.3 <= 4,
{
    if intensity {
        // The actual value of scalefac_compress is a 9-bit unsigned integer
        // for MPEG 2. Halving reduces it to an 8-bit value.
        let c = (sfc as u32) / 2;
        if c <= 179 {
            (c / 36, (c % 36) / 6, (c % 36) % 6, 0, 0)
        } else if c <= 243 {
            (((c - 180) % 64) / 16, ((c - 180) % 16) / 4, (c - 180) % 4, 0, 1)
        } else {
            ((c - 244) / 3, (c - 244) % 3, 0, 0, 2)
        }
    } else {
        let c = sfc as u32;
        if c <= 399 {
            ((c / 16) / 5, (c / 16) % 5, (c % 16) / 4, c % 4, 3)
        } else if c <= 499 {
            (((c - 400) / 4) / 5, ((c - 400) / 4) % 5, (c - 400) % 4, 0, 4)
        } else {
            ((c - 500) / 3, (c - 500) % 3, 0, 0, 5)
        }
    }
}

/// The scale factors of an MPEG 2 channel as its reader leaves them, given
/// the bits of `s` from bit `p`: each partition's values equal their bit
/// fields (zero-width partitions stay zero) and everything past the four
/// partitions is zero.
pub open spec fn spec_sf2_scalefacs(
    sf: [u8; 39],
    sfc: int,
    intensity: bool,
    bt: BlockType,
    s: Seq<u8>,
    p: int,
) -> bool {
    &&& (forall|j: int, i: int|
        #![trigger sf[i], spec_sf2_start(j, sfc, intensity, bt)]
        0 <= j < 4 && spec_sf2_start(j, sfc, intensity, bt) <= i < spec_sf2_start(
            j + 1,
            sfc,
            intensity,
            bt,
        ) ==> sf[i] == (if spec_sf2_slen(j, sfc, intensity) > 0 {
            spec_sf_val(
                s,
                p + spec_sf2_offset(j, sfc, intensity, bt) + (i - spec_sf2_start(
                    j,
                    sfc,
                    intensity,
                    bt,
                )) * spec_sf2_slen(j, sfc, intensity),
                spec_sf2_slen(j, sfc, intensity),
            )
        } else {
            0u8
        }))
    &&& (forall|i: int| spec_sf2_start(4, sfc, intensity, bt) <= i < 39 ==> (#[trigger] sf[i])
        == 0)
}

/// Reads the scale factors of one channel of one granule of an MPEG 2 or
/// 2.5 frame.
///
/// `is_intensity_stereo` selects the intensity-stereo decomposition used
/// for the second channel when intensity stereo is active. Returns the
/// number of bits read. Every scale factor equals the value of its bit
/// field (partitions of width zero stay zero); values fit 5 bits, and 4
/// bits when the ordinary decomposition applies.
#[verifier::rlimit(100)]
#[verifier::spinoff_prover]
pub fn l3_read_scale_factors_mpeg2(
    bs: &mut BitReader,
    is_intensity_stereo: bool,
    channel: &mut GranuleChannel,
) -> (r: Result<u32, Error>)
    requires
        old(bs).wf(),
        old(channel).scalefac_compress < 512,
        forall|i: int| 0 <= i < 39 ==> old(channel).scalefacs[i] == 0,
    ensures
        final(bs).wf(),
        final(bs).data() == old(bs).data(),
        spec_only_scalefacs_changed(*old(channel), *final(channel)),
        ({
            let p = old(bs).spec_pos();
            let n = old(bs).data().len() * 8;
            let sfc = old(channel).scalefac_compress as int;
            let bt = old(channel).block_type;
            let total = spec_sf2_total_bits(sfc, is_intensity_stereo, bt);
            p + total > n ==> r == Err::<u32, Error>(Error::BitstreamExhausted)
        }),
        ({
            let p = old(bs).spec_pos();
            let n = old(bs).data().len() * 8;
            let sfc = old(channel).scalefac_compress as int;
            let bt = old(channel).block_type;
            let total = spec_sf2_total_bits(sfc, is_intensity_stereo, bt);
            p + total <= n ==> r == Ok::<u32, Error>(total as u32) && final(bs).spec_pos() == p
                + total
        }),
        ({
            let p = old(bs).spec_pos();
            let n = old(bs).data().len() * 8;
            let s = old(bs).data();
            let sfc = old(channel).scalefac_compress as int;
            let bt = old(channel).block_type;
            let total = spec_sf2_total_bits(sfc, is_intensity_stereo, bt);
            p + total <= n ==> spec_sf2_scalefacs(
                final(channel).scalefacs,
                sfc,
                is_intensity_stereo,
                bt,
                s,
                p,
            )
        }),
        ({
            let p = old(bs).spec_pos();
            let n = old(bs).data().len() * 8;
            let sfc = old(channel).scalefac_compress as int;
            let bt = old(channel).block_type;
            let total = spec_sf2_total_bits(sfc, is_intensity_stereo, bt);
            p + total <= n ==> (forall|i: int|
                0 <= i < 39 ==> (#[trigger] final(channel).scalefacs[i]) < 32) && (!is_intensity_stereo
                ==> (forall|i: int| 0 <= i < 39 ==> (#[trigger] final(channel).scalefacs[i]) < 16))
        }),
{
    let ghost sfcg = old(channel).scalefac_compress as int;
    let ghost btg = old(channel).block_type;

    let block_index: usize = match channel.block_type {
        BlockType::Short { is_mixed: true } => 2,
        BlockType::Short { is_mixed: false } => 1,
        _ => 0,
    };

    // Decompose scalefac_compress into the four bit widths and select the
    // partition-size row.
    let (s0, s1, s2, s3, row) = sf2_decompose(channel.scalefac_compress, is_intensity_stereo);

    proof {
        assert(forall|a: int, b: int, j: int|
            0 <= a < 6 && 0 <= b < 3 && 0 <= j < 4 ==> (#[trigger] SCALE_FACTOR_MPEG2_NSFB[a][b][j])
                <= 18);
        assert(forall|a: int, b: int|
            0 <= a < 6 && 0 <= b < 3 ==> (#[trigger] SCALE_FACTOR_MPEG2_NSFB[a][b][0int])
                + SCALE_FACTOR_MPEG2_NSFB[a][b][1int] + SCALE_FACTOR_MPEG2_NSFB[a][b][2int]
                + SCALE_FACTOR_MPEG2_NSFB[a][b][3int] <= 39);
    }
    let n0 = SCALE_FACTOR_MPEG2_NSFB[row][block_index][0];
    let n1 = SCALE_FACTOR_MPEG2_NSFB[row][block_index][1];
    let n2 = SCALE_FACTOR_MPEG2_NSFB[row][block_index][2];
    let n3 = SCALE_FACTOR_MPEG2_NSFB[row][block_index][3];

    read_sf2_partitions(bs, s0, n0, s1, n1, s2, n2, s3, n3, &mut channel.scalefacs)
}

} // verus!

