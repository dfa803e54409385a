//! The bit reservoir for main_data.
//!
//! Since frames have a deterministic length based on the bit-rate,
//! low-complexity portions of the audio may not need every byte allocated to
//! the frame. The bit reservoir mechanism allows these unused portions of
//! frames to be used by future frames: each frame's side information points
//! `main_data_begin` bytes back into the bytes left over from earlier frames.

use vstd::prelude::*;

use crate::error::Error;

verus! {

/// The reservoir holds at most this many bytes, mirroring its fixed 2 KiB
/// allocation.
pub const RESERVOIR_CAPACITY: usize = 2048;

/// `BitResevoir` implements the bit reservoir mechanism for main_data. Its
/// view is the sequence of valid bytes it currently holds.
pub struct BitResevoir {
    buf: Vec<u8>,
}

impl View for BitResevoir {
    type V = Seq<u8>;

    closed spec fn view(&self) -> Seq<u8> {
        self.buf@
    }
}

impl BitResevoir {
    /// The reservoir never outgrows its fixed capacity.
    pub open spec fn wf(self) -> bool {
        self@.len() <= RESERVOIR_CAPACITY
    }

    /// Creates an empty reservoir.
    pub fn new() -> (r: Self)
        ensures
            r@ == Seq::<u8>::empty(),
            r.wf(),
    {
        BitResevoir { buf: Vec::new() }
    }

    /// The number of valid bytes currently held.
    pub fn len(&self) -> (r: usize)
        ensures
            r == self@.len(),
    {
        self.buf.len()
    }

    /// Replaces the reservoir contents for a new frame: the last
    /// `main_data_begin` bytes of the previous contents move to the front,
    /// and the frame's own `data` bytes follow them.
    ///
    /// Fails, leaving the reservoir untouched, exactly when
    /// `main_data_begin` reaches back past the bytes actually held.
    pub fn fill(&mut self, main_data_begin: usize, data: &[u8]) -> (r: Result<(), Error>)
        requires
            old(self).wf(),
            main_data_begin + data@.len() <= RESERVOIR_CAPACITY,
        ensures
            final(self).wf(),
            main_data_begin > old(self)@.len() ==> r == Err::<(), Error>(
                Error::InvalidMainDataBegin,
            ) && final(self)@ == old(self)@,
            main_data_begin <= old(self)@.len() ==> r == Ok::<(), Error>(()) && final(self)@
                == old(self)@.subrange(
                old(self)@.len() - main_data_begin,
                old(self)@.len() as int,
            ) + data@,
    {
        // The value `main_data_begin` indicates the number of bytes from the
        // previous frames to reuse. It must be less than or equal to the
        // amount of bytes in the buffer.
        if main_data_begin > self.buf.len() {
            return Err(Error::InvalidMainDataBegin);
        }

        let prev = self.buf.len() - main_data_begin;
        let mut newbuf: Vec<u8> = Vec::with_capacity(main_data_begin + data.len());

        // Carry over the tail of the previous contents.
        let mut i: usize = 0;
        while i < main_data_begin
            invariant
                i <= main_data_begin,
                main_data_begin <= self.buf@.len(),
                self.buf@.len() <= RESERVOIR_CAPACITY,
                prev == self.buf@.len() - main_data_begin,
                newbuf@ == self.buf@.subrange(prev as int, prev + i),
            decreases main_data_begin - i,
        {
            newbuf.push(self.buf[prev + i]);
            proof {
                assert(newbuf@ =~= self.buf@.subrange(prev as int, prev + i + 1));
            }
            i = i + 1;
        }

        // Append the bytes of the new frame.
        let mut j: usize = 0;
        while j < data.len()
            invariant
                j <= data@.len(),
                main_data_begin <= self.buf@.len(),
                self.buf@.len() <= RESERVOIR_CAPACITY,
                prev == self.buf@.len() - main_data_begin,
                newbuf@ == self.buf@.subrange(prev as int, self.buf@.len() as int)
                    + data@.subrange(0, j as int),
            decreases data@.len() - j,
        {
            newbuf.push(data[j]);
            proof {
                assert(newbuf@ =~= self.buf@.subrange(prev as int, self.buf@.len() as int)
                    + data@.subrange(0, j + 1));
            }
            j = j + 1;
        }

        proof {
            assert(data@.subrange(0, data@.len() as int) =~= data@);
        }
        self.buf = newbuf;
        Ok(())
    }

    /// The valid bytes of the reservoir, front to back.
    pub fn bytes_ref(&self) -> (r: &[u8])
        ensures
            r@ == self@,
    {
        self.buf.as_slice()
    }
}

} // verus!
