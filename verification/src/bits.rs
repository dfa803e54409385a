//! An MSB-first bit reader over a byte slice.
//!
//! Layer III side information and main_data are dense bit streams: fields
//! start at arbitrary bit offsets and are read most-significant bit first.
//! The reader keeps a bit cursor into an immutable byte slice and refuses to
//! move past its end.

use vstd::arithmetic::power2::{lemma2_to64, lemma_pow2_strictly_increases, lemma_pow2_unfold, pow2};
use vstd::prelude::*;

use crate::error::Error;

verus! {

/// Bit `i` of a byte sequence, counting bits MSB-first from the first byte.
pub open spec fn spec_bit(bytes: Seq<u8>, i: int) -> bool {
    ((bytes[i / 8] as u32) >> ((7 - (i % 8)) as u32)) & 1u32 == 1u32
}

/// The value of `n` bits read MSB-first starting at bit offset `pos`.
pub open spec fn spec_bits_val(bytes: Seq<u8>, pos: int, n: nat) -> nat
    decreases n,
{
    if n == 0 {
        0
    } else {
        2 * spec_bits_val(bytes, pos, (n - 1) as nat) + (if spec_bit(bytes, pos + n - 1) {
            1nat
        } else {
            0nat
        })
    }
}

/// An `n`-bit field is always smaller than `2^n`.
pub proof fn lemma_bits_val_bound(bytes: Seq<u8>, pos: int, n: nat)
    ensures
        spec_bits_val(bytes, pos, n) < pow2(n),
    decreases n,
{
    if n == 0 {
        vstd::arithmetic::power2::lemma_pow2_pos(0);
    } else {
        vstd::arithmetic::power2::lemma_pow2_unfold(n);
        lemma_bits_val_bound(bytes, pos, (n - 1) as nat);
    }
}

/// The largest slice the reader accepts, so that the bit count fits `usize`
/// on every machine.
pub const MAX_BIT_SOURCE_BYTES: usize = 0x0fff_ffff;

/// An MSB-first cursor over a byte slice.
pub struct BitReader<'a> {
    bytes: &'a [u8],
    pos: usize,
}

impl<'a> BitReader<'a> {
    /// The bytes the reader walks over.
    pub closed spec fn data(self) -> Seq<u8> {
        self.bytes@
    }

    /// The cursor, as a bit offset from the start of the slice.
    pub closed spec fn spec_pos(self) -> int {
        self.pos as int
    }

    /// The cursor never passes the end of the slice.
    pub open spec fn wf(self) -> bool {
        self.spec_pos() <= self.data().len() * 8 && self.data().len() <= MAX_BIT_SOURCE_BYTES
    }

    /// Creates a reader positioned at the first bit of `bytes`.
    pub fn new(bytes: &'a [u8]) -> (r: Self)
        requires
            bytes@.len() <= MAX_BIT_SOURCE_BYTES,
        ensures
            r.wf(),
            r.data() == bytes@,
            r.spec_pos() == 0,
    {
        BitReader { bytes, pos: 0 }
    }

    /// The current bit offset.
    pub fn pos(&self) -> (r: usize)
        ensures
            r == self.spec_pos(),
    {
        self.pos
    }

    /// Skips `n` bits, or fails without moving when fewer remain.
    pub fn ignore_bits(&mut self, n: u32) -> (r: Result<(), Error>)
        requires
            old(self).wf(),
        ensures
            final(self).wf(),
            final(self).data() == old(self).data(),
            old(self).spec_pos() + n <= old(self).data().len() * 8 ==> r == Ok::<(), Error>(())
                && final(self).spec_pos() == old(self).spec_pos() + n,
            old(self).spec_pos() + n > old(self).data().len() * 8 ==> r == Err::<(), Error>(
                Error::BitstreamExhausted,
            ) && final(self).spec_pos() == old(self).spec_pos(),
    {
        if n as usize > self.bytes.len() * 8 - self.pos {
            return Err(Error::BitstreamExhausted);
        }
        self.pos = self.pos + n as usize;
        Ok(())
    }

    /// Reads `n <= 32` bits MSB-first, or fails without moving when fewer
    /// remain.
    #[verifier::loop_isolation(false)]
    pub fn read_bits_leq32(&mut self, n: u32) -> (r: Result<u32, Error>)
        requires
            old(self).wf(),
            n <= 32,
        ensures
            final(self).wf(),
            final(self).data() == old(self).data(),
            old(self).spec_pos() + n <= old(self).data().len() * 8 ==> (r matches Ok(v)
                && v == spec_bits_val(old(self).data(), old(self).spec_pos(), n as nat)
                && final(self).spec_pos() == old(self).spec_pos() + n),
            old(self).spec_pos() + n > old(self).data().len() * 8 ==> r == Err::<u32, Error>(
                Error::BitstreamExhausted,
            ) && final(self).spec_pos() == old(self).spec_pos(),
    {
        if n as usize > self.bytes.len() * 8 - self.pos {
            return Err(Error::BitstreamExhausted);
        }
        let ghost start = self.pos as int;
        proof {
            lemma2_to64();
        }
        let mut pos = self.pos;
        let mut acc: u32 = 0;
        let mut k: u32 = 0;
        while k < n
            invariant
                k <= n,
                pos == start + k,
                acc == spec_bits_val(self.bytes@, start, k as nat),
                acc < pow2(k as nat),
            decreases n - k,
        {
            proof {
                lemma2_to64();
                lemma_pow2_unfold((k + 1) as nat);
                if (k as nat) < 31 {
                    lemma_pow2_strictly_increases(k as nat, 31);
                }
                assert(pos / 8 < self.bytes@.len()) by (nonlinear_arith)
                    requires
                        pos < self.bytes@.len() * 8,
                ;
            }
            let byte = self.bytes[pos / 8];
            let shift32: u32 = (7 - (pos % 8)) as u32;
            let bit: u32 = ((byte as u32) >> shift32) & 1u32;
            proof {
                assert(((byte as u32) >> shift32) & 1u32 <= 1u32) by (bit_vector);
                assert(bit == 1 <==> spec_bit(self.bytes@, start + k));
            }
            acc = acc * 2 + bit;
            pos = pos + 1;
            k = k + 1;
        }
        self.pos = pos;
        Ok(acc)
    }

    /// Reads a single bit, or fails without moving at the end of the slice.
    pub fn read_bit(&mut self) -> (r: Result<bool, Error>)
        requires
            old(self).wf(),
        ensures
            final(self).wf(),
            final(self).data() == old(self).data(),
            old(self).spec_pos() + 1 <= old(self).data().len() * 8 ==> (r matches Ok(b)
                && b == spec_bit(old(self).data(), old(self).spec_pos())
                && final(self).spec_pos() == old(self).spec_pos() + 1),
            old(self).spec_pos() + 1 > old(self).data().len() * 8 ==> r == Err::<bool, Error>(
                Error::BitstreamExhausted,
            ) && final(self).spec_pos() == old(self).spec_pos(),
    {
        let ghost d = old(self).data();
        let ghost p = old(self).spec_pos();
        let v = match self.read_bits_leq32(1) {
            Ok(v) => v,
            Err(e) => {
                return Err(e);
            },
        };
        proof {
            assert(spec_bits_val(d, p, 1nat) == 2 * spec_bits_val(d, p, 0nat) + (if spec_bit(
                d,
                p,
            ) {
                1nat
            } else {
                0nat
            }));
        }
        Ok(v == 1)
    }
}

} // verus!
