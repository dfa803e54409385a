//! Decoding the main_data of a frame: scale factors (part2) followed by
//! Huffman-coded spectral samples (part3) for every granule and channel.
//!
//! The main_data is presented by the bit reservoir. Because encoders
//! commonly mis-stuff the final count1 codeword, the bitstream is re-seated
//! for every channel at the accumulated `part2_3_length` total instead of
//! trusting the incremental cursor.

use vstd::prelude::*;

use crate::bits::{BitReader, MAX_BIT_SOURCE_BYTES};
use crate::error::Error;
use crate::header::{Channels, FrameHeader, MpegVersion};
use crate::huffman::{
    l3_read_huffman_samples, lemma_huffman_decode_ignores_sf, spec_huffman_decode, HuffmanTables,
};
use crate::reservoir::BitResevoir;
use crate::scalefacs::{
    l3_read_scale_factors_mpeg1, l3_read_scale_factors_mpeg2, lemma_sf1_total_nonneg,
    lemma_sf2_total_nonneg, spec_sf1_scalefacs, spec_sf1_total_bits, spec_sf2_scalefacs,
    spec_sf2_total_bits,
};
use crate::sideinfo::{FrameData, GranuleChannel};

verus! {

/// Every field of `b` except the scale factors and `rzero` equals the one
/// of `a`.
pub open spec fn spec_only_sf_rzero_changed(a: GranuleChannel, b: GranuleChannel) -> bool {
    &&& b.part2_3_length == a.part2_3_length
    &&& b.big_values == a.big_values
    &&& b.global_gain == a.global_gain
    &&& b.scalefac_compress == a.scalefac_compress
    &&& b.block_type == a.block_type
    &&& b.subblock_gain == a.subblock_gain
    &&& b.table_select == a.table_select
    &&& b.region1_start == a.region1_start
    &&& b.region2_start == a.region2_start
    &&& b.preflag == a.preflag
    &&& b.scalefac_scale == a.scalefac_scale
    &&& b.count1table_select == a.count1table_select
}

/// A channel as the side-information reader leaves it, ready for main_data
/// decoding: well formed, cleared scale factors, and a scalefac_compress
/// value that fits its version's table.
pub open spec fn spec_channel_ready(ch: GranuleChannel, mpeg1: bool) -> bool {
    &&& ch.wf()
    &&& (forall|i: int| 0 <= i < 39 ==> ch.scalefacs[i] == 0)
    &&& (mpeg1 ==> ch.scalefac_compress < 16)
}

/// The part2 bit count of one channel: the scale-factor bits its version's
/// decomposition assigns.
pub open spec fn spec_part2_bits(
    ch: GranuleChannel,
    mpeg1: bool,
    use_scfsi: bool,
    scfsi: [bool; 4],
    intensity2: bool,
) -> int {
    if mpeg1 {
        spec_sf1_total_bits(ch.block_type, ch.scalefac_compress as int, use_scfsi, scfsi)
    } else {
        spec_sf2_total_bits(ch.scalefac_compress as int, intensity2, ch.block_type)
    }
}

/// One channel's main_data fully decoded from bit `begin` of `s`: the scale
/// factors equal the values the version's reader pins at `begin`, the
/// spectral samples and `rzero` equal the part3 mirror at `begin + part2`
/// with the budget `part2_3_length - part2` (all zero when that budget is
/// zero), and no other side-information field changes.
#[verifier::opaque]
pub open spec fn spec_channel_decoded(
    ch0: GranuleChannel,
    chf: GranuleChannel,
    buf: Seq<i32>,
    s: Seq<u8>,
    begin: int,
    mpeg1: bool,
    use_scfsi: bool,
    scfsi: [bool; 4],
    gr0: [u8; 39],
    intensity2: bool,
    t: HuffmanTables,
) -> bool {
    let sfc = ch0.scalefac_compress as int;
    let part2 = spec_part2_bits(ch0, mpeg1, use_scfsi, scfsi, intensity2);
    let part3 = ch0.part2_3_length - part2;
    &&& spec_only_sf_rzero_changed(ch0, chf)
    &&& part2 <= ch0.part2_3_length
    &&& (mpeg1 ==> spec_sf1_scalefacs(
        chf.scalefacs,
        ch0.block_type,
        sfc,
        s,
        begin,
        use_scfsi,
        scfsi,
        gr0,
    ))
    &&& (!mpeg1 ==> spec_sf2_scalefacs(chf.scalefacs, sfc, intensity2, ch0.block_type, s, begin))
    &&& (part3 == 0 ==> chf.rzero == 0 && (forall|k: int| 0 <= k < 576 ==> buf[k] == 0))
    &&& (part3 > 0 ==> match spec_huffman_decode(
        t,
        ch0,
        s,
        begin + part2,
        begin + ch0.part2_3_length,
    ) {
        Some((vals, rzf, pf)) => chf.rzero == rzf && (forall|k: int|
            0 <= k < 576 ==> (#[trigger] buf[k]) as int == vals[k]),
        None => false,
    })
}

/// Decodes the part2 and part3 data of one channel, starting `begin_bits`
/// into `main_data`, and records the decoded `rzero` in the channel.
///
/// On success the result is pinned by [`spec_channel_decoded`]: the scale
/// factors, the spectral samples and `rzero` all equal what the stage
/// mirrors yield at `begin_bits`; the invalid-part2_3_length error comes
/// exactly when the scale factors claim more bits than `part2_3_length`
/// grants.
fn read_channel_main_data(
    main_data: &[u8],
    begin_bits: u32,
    mpeg1: bool,
    use_scfsi: bool,
    scfsi: &[bool; 4],
    gr0_scalefacs: &[u8; 39],
    is_intensity2: bool,
    tables: &HuffmanTables,
    channel: &mut GranuleChannel,
) -> (r: Result<Vec<i32>, Error>)
    requires
        main_data@.len() <= MAX_BIT_SOURCE_BYTES,
        spec_channel_ready(*old(channel), mpeg1),
        forall|i: int| 0 <= i < 39 ==> gr0_scalefacs[i] < 16,
    ensures
        spec_only_sf_rzero_changed(*old(channel), *final(channel)),
        r matches Ok(buf) ==> {
            &&& buf@.len() == 576
            &&& final(channel).rzero <= 576
            &&& final(channel).wf()
            &&& (forall|k: int| final(channel).rzero <= k < 576 ==> buf@[k] == 0)
            &&& (forall|k: int| 0 <= k < 576 ==> -8206 <= #[trigger] buf@[k] <= 8206)
            &&& (mpeg1 ==> forall|i: int|
                0 <= i < 39 ==> (#[trigger] final(channel).scalefacs[i]) < 16)
        },
        r matches Ok(buf) ==> spec_channel_decoded(
            *old(channel),
            *final(channel),
            buf@,
            main_data@,
            begin_bits as int,
            mpeg1,
            use_scfsi,
            *scfsi,
            *gr0_scalefacs,
            is_intensity2,
            *tables,
        ),
        begin_bits + spec_part2_bits(*old(channel), mpeg1, use_scfsi, *scfsi, is_intensity2)
            <= main_data@.len() * 8 && spec_part2_bits(
            *old(channel),
            mpeg1,
            use_scfsi,
            *scfsi,
            is_intensity2,
        ) > old(channel).part2_3_length ==> r == Err::<Vec<i32>, Error>(
            Error::InvalidPart23Length,
        ),
        r == Err::<Vec<i32>, Error>(Error::InvalidPart23Length) ==> spec_part2_bits(
            *old(channel),
            mpeg1,
            use_scfsi,
            *scfsi,
            is_intensity2,
        ) > old(channel).part2_3_length,
{
    let ghost total = spec_part2_bits(*old(channel), mpeg1, use_scfsi, *scfsi, is_intensity2);
    proof {
        if mpeg1 {
            lemma_sf1_total_nonneg(
                old(channel).block_type,
                old(channel).scalefac_compress as int,
                use_scfsi,
                *scfsi,
            );
        } else {
            lemma_sf2_total_nonneg(
                old(channel).scalefac_compress as int,
                is_intensity2,
                old(channel).block_type,
            );
        }
    }
    let mut bs = BitReader::new(main_data);
    match bs.ignore_bits(begin_bits) {
        Ok(()) => (),
        Err(e) => {
            return Err(e);
        },
    };

    // Part2: the scale factors.
    let part2_len = if mpeg1 {
        match l3_read_scale_factors_mpeg1(&mut bs, use_scfsi, scfsi, gr0_scalefacs, channel) {
            Ok(v) => v,
            Err(e) => {
                return Err(e);
            },
        }
    } else {
        match l3_read_scale_factors_mpeg2(&mut bs, is_intensity2, channel) {
            Ok(v) => v,
            Err(e) => {
                return Err(e);
            },
        }
    };

    proof {
        // The reader consumed exactly the decomposition's bit count, which
        // the bit cursor bounds below the 32-bit range.
        assert(begin_bits + total <= main_data@.len() * 8);
        assert(part2_len == total);
    }

    // The scale factors may not claim more bits than part2_3_length grants.
    if part2_len > channel.part2_3_length as u32 {
        return Err(Error::InvalidPart23Length);
    }
    let part3_len = channel.part2_3_length as u32 - part2_len;

    // Part3: the Huffman-coded spectral samples.
    let (buf, rzero) = match l3_read_huffman_samples(&mut bs, channel, part3_len, tables) {
        Ok(v) => v,
        Err(e) => {
            return Err(e);
        },
    };
    proof {
        lemma_huffman_decode_ignores_sf(
            *tables,
            *channel,
            *old(channel),
            main_data@,
            begin_bits + total,
            begin_bits + old(channel).part2_3_length,
        );
    }
    channel.rzero = rzero;
    proof {
        reveal(spec_channel_decoded);
    }
    Ok(buf)
}

/// Reads the main_data portion of a frame from the bit reservoir:
/// scale factors and spectral samples for every granule and channel, in
/// granule-major order.
///
/// Returns one 576-sample buffer per granule-channel, in the same order,
/// and records each channel's `rzero` in `frame_data`. On success every
/// channel is pinned by [`spec_channel_decoded`] at the accumulated
/// `part2_3_length` bit offset into the reservoir bytes — the bitstream is
/// re-seated there for each channel rather than trusting the previous
/// channel's final cursor — so the scale factors, samples and `rzero` all
/// equal the stage mirrors' results, the buffers are zero from `rzero`
/// onward with every magnitude at most 8206, and no other
/// side-information field changes. The invalid-part2_3_length error is
/// raised only when some channel's scale factors claim more bits than its
/// `part2_3_length` grants (and, conversely, such a channel is reported
/// with that error when its turn comes).
#[verifier::rlimit(100)]
pub fn l3_read_main_data(
    header: &FrameHeader,
    frame_data: &mut FrameData,
    reservoir: &BitResevoir,
    tables: &HuffmanTables,
) -> (r: Result<Vec<Vec<i32>>, Error>)
    requires
        header.wf(),
        spec_channel_ready(
            old(frame_data).granules[0].channels[0],
            header.version == MpegVersion::Mpeg1,
        ),
        header.channels != Channels::Mono ==> spec_channel_ready(
            old(frame_data).granules[0].channels[1],
            header.version == MpegVersion::Mpeg1,
        ),
        header.version == MpegVersion::Mpeg1 ==> spec_channel_ready(
            old(frame_data).granules[1].channels[0],
            true,
        ),
        header.version == MpegVersion::Mpeg1 && header.channels != Channels::Mono
            ==> spec_channel_ready(old(frame_data).granules[1].channels[1], true),
    ensures
        final(frame_data).main_data_begin == old(frame_data).main_data_begin,
        final(frame_data).scfsi == old(frame_data).scfsi,
        spec_only_sf_rzero_changed(
            old(frame_data).granules[0].channels[0],
            final(frame_data).granules[0].channels[0],
        ),
        spec_only_sf_rzero_changed(
            old(frame_data).granules[0].channels[1],
            final(frame_data).granules[0].channels[1],
        ),
        spec_only_sf_rzero_changed(
            old(frame_data).granules[1].channels[0],
            final(frame_data).granules[1].channels[0],
        ),
        spec_only_sf_rzero_changed(
            old(frame_data).granules[1].channels[1],
            final(frame_data).granules[1].channels[1],
        ),
        r matches Ok(bufs) ==> {
            let nch = if header.channels == Channels::Mono {
                1int
            } else {
                2int
            };
            let ngr = if header.version == MpegVersion::Mpeg1 {
                2int
            } else {
                1int
            };
            &&& bufs@.len() == ngr * nch
            &&& (forall|gi: int| 0 <= gi < ngr * nch ==> (#[trigger] bufs@[gi])@.len() == 576)
            &&& (forall|gi: int, k: int|
                0 <= gi < ngr * nch && 0 <= k < 576 ==> -8206 <= (#[trigger] bufs@[gi]@[k])
                    <= 8206)
            &&& (forall|gi: int, k: int|
                0 <= gi < ngr * nch && final(frame_data).granules[gi / nch].channels[
                    gi % nch
                ].rzero <= k < 576 ==> (#[trigger] bufs@[gi]@[k]) == 0)
            &&& (forall|gi: int|
                0 <= gi < ngr * nch ==> (#[trigger] final(frame_data).granules[gi / nch].channels[
                    gi % nch
                ]).wf())
        },
        r matches Ok(bufs) ==> ({
            let s = reservoir@;
            let fd0 = *old(frame_data);
            let mpeg1 = header.version == MpegVersion::Mpeg1;
            let mono = header.channels == Channels::Mono;
            let intens = header.spec_is_intensity_stereo();
            let z = fd0.granules[0].channels[0].scalefacs;
            let b01 = fd0.granules[0].channels[0].part2_3_length as int;
            let b10 = b01 + (if mono {
                0int
            } else {
                fd0.granules[0].channels[1].part2_3_length as int
            });
            let b11 = b10 + fd0.granules[1].channels[0].part2_3_length as int;
            &&& spec_channel_decoded(
                fd0.granules[0].channels[0],
                final(frame_data).granules[0].channels[0],
                bufs@[0]@,
                s,
                0,
                mpeg1,
                false,
                fd0.scfsi[0],
                z,
                false,
                *tables,
            )
            &&& (!mono ==> spec_channel_decoded(
                fd0.granules[0].channels[1],
                final(frame_data).granules[0].channels[1],
                bufs@[1]@,
                s,
                b01,
                mpeg1,
                false,
                fd0.scfsi[1],
                z,
                intens,
                *tables,
            ))
            &&& (mpeg1 ==> spec_channel_decoded(
                fd0.granules[1].channels[0],
                final(frame_data).granules[1].channels[0],
                bufs@[if mono {
                    1int
                } else {
                    2int
                }]@,
                s,
                b10,
                true,
                true,
                fd0.scfsi[0],
                final(frame_data).granules[0].channels[0].scalefacs,
                false,
                *tables,
            ))
            &&& (mpeg1 && !mono ==> spec_channel_decoded(
                fd0.granules[1].channels[1],
                final(frame_data).granules[1].channels[1],
                bufs@[3]@,
                s,
                b11,
                true,
                true,
                fd0.scfsi[1],
                final(frame_data).granules[0].channels[1].scalefacs,
                false,
                *tables,
            ))
        }),
        r == Err::<Vec<Vec<i32>>, Error>(Error::InvalidPart23Length) ==> ({
            let fd0 = *old(frame_data);
            let mpeg1 = header.version == MpegVersion::Mpeg1;
            let mono = header.channels == Channels::Mono;
            let intens = header.spec_is_intensity_stereo();
            ||| spec_part2_bits(fd0.granules[0].channels[0], mpeg1, false, fd0.scfsi[0], false)
                > fd0.granules[0].channels[0].part2_3_length
            ||| (!mono && spec_part2_bits(
                fd0.granules[0].channels[1],
                mpeg1,
                false,
                fd0.scfsi[1],
                intens,
            ) > fd0.granules[0].channels[1].part2_3_length)
            ||| (mpeg1 && spec_part2_bits(
                fd0.granules[1].channels[0],
                true,
                true,
                fd0.scfsi[0],
                false,
            ) > fd0.granules[1].channels[0].part2_3_length)
            ||| (mpeg1 && !mono && spec_part2_bits(
                fd0.granules[1].channels[1],
                true,
                true,
                fd0.scfsi[1],
                false,
            ) > fd0.granules[1].channels[1].part2_3_length)
        }),
{
    let main_data = reservoir.bytes_ref();
    if main_data.len() > MAX_BIT_SOURCE_BYTES {
        // The reservoir is far smaller than the reader's limit; this
        // cannot happen, but decoding proceeds without it gracefully.
        return Err(Error::BitstreamExhausted);
    }
    let mpeg1 = header.is_mpeg1();
    let mono = matches!(header.channels, Channels::Mono);
    let intensity = header.is_intensity_stereo();

    let mut bufs: Vec<Vec<i32>> = Vec::new();
    let mut part2_3_begin: u32 = 0;

    // Granule 0, channel 0.
    let mut g0 = frame_data.granules[0];
    let mut c = g0.channels[0];
    let zeros = frame_data.granules[0].channels[0].scalefacs;
    let b00 = match read_channel_main_data(
        main_data,
        part2_3_begin,
        mpeg1,
        false,
        &frame_data.scfsi[0],
        &zeros,
        false,
        tables,
        &mut c,
    ) {
        Ok(b) => b,
        Err(e) => {
            return Err(e);
        },
    };
    part2_3_begin = part2_3_begin + c.part2_3_length as u32;
    g0.channels[0] = c;
    frame_data.granules[0] = g0;
    bufs.push(b00);

    // Granule 0, channel 1.
    if !mono {
        let mut g0 = frame_data.granules[0];
        let mut c = g0.channels[1];
        let b01 = match read_channel_main_data(
            main_data,
            part2_3_begin,
            mpeg1,
            false,
            &frame_data.scfsi[1],
            &zeros,
            intensity,
            tables,
            &mut c,
        ) {
            Ok(b) => b,
            Err(e) => {
                return Err(e);
            },
        };
        part2_3_begin = part2_3_begin + c.part2_3_length as u32;
        g0.channels[1] = c;
        frame_data.granules[0] = g0;
        bufs.push(b01);
    }

    // Granule 1, MPEG 1 only. Its long-block band ranges whose SCFSI flag
    // is set reuse granule 0's scale factors.
    if mpeg1 {
        let gr0 = frame_data.granules[0];
        let mut g1 = frame_data.granules[1];
        let mut c = g1.channels[0];
        let b10 = match read_channel_main_data(
            main_data,
            part2_3_begin,
            true,
            true,
            &frame_data.scfsi[0],
            &gr0.channels[0].scalefacs,
            false,
            tables,
            &mut c,
        ) {
            Ok(b) => b,
            Err(e) => {
                return Err(e);
            },
        };
        part2_3_begin = part2_3_begin + c.part2_3_length as u32;
        g1.channels[0] = c;
        frame_data.granules[1] = g1;
        bufs.push(b10);

        if !mono {
            let gr0 = frame_data.granules[0];
            let mut g1 = frame_data.granules[1];
            let mut c = g1.channels[1];
            let b11 = match read_channel_main_data(
                main_data,
                part2_3_begin,
                true,
                true,
                &frame_data.scfsi[1],
                &gr0.channels[1].scalefacs,
                false,
                tables,
                &mut c,
            ) {
                Ok(b) => b,
                Err(e) => {
                    return Err(e);
                },
            };
            part2_3_begin = part2_3_begin + c.part2_3_length as u32;
            g1.channels[1] = c;
            frame_data.granules[1] = g1;
            bufs.push(b11);
        }
    }

    Ok(bufs)
}

} // verus!
