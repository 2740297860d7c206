//! Bounded text-file reading: the fixed-size accumulator behind every
//! file-based strategy. It defends against a huge or endless file standing
//! where a small identity text is expected: no more than the cap is ever
//! kept, and a reading loop driven by it always terminates, because every
//! non-empty chunk strictly grows the buffer towards the cap.

use vstd::prelude::*;

verus! {

/// Upper bound on the bytes kept from an identity text file: the longest
/// hyphenated UUID representation.
pub const UUID_TEXT_CAP: usize = 36;

/// Accumulator for at most [`UUID_TEXT_CAP`] bytes of file content. The
/// surrounding reading loop asks for [`BoundedReader::capacity_left`] bytes,
/// reads at most that many, and feeds them back, until `feed` reports that
/// no more input is wanted.
pub struct BoundedReader {
    buf: Vec<u8>,
}

impl View for BoundedReader {
    type V = Seq<u8>;

    closed spec fn view(&self) -> Seq<u8> {
        self.buf@
    }
}

impl BoundedReader {
    /// The buffer never exceeds the cap.
    pub open spec fn inv(self) -> bool {
        self@.len() <= UUID_TEXT_CAP
    }

    /// An empty accumulator.
    pub fn new() -> (r: BoundedReader)
        ensures
            r@ == Seq::<u8>::empty(),
            r.inv(),
    {
        BoundedReader { buf: Vec::new() }
    }

    /// How many further bytes may be read: the reading loop never requests
    /// more than this, so no more than the cap is ever read into memory.
    pub fn capacity_left(&self) -> (r: usize)
        requires
            self.inv(),
        ensures
            r == UUID_TEXT_CAP - self@.len(),
    {
        UUID_TEXT_CAP - self.buf.len()
    }

    /// Appends one chunk of read bytes (a short read is fine) and reports
    /// whether reading should continue. A non-empty chunk strictly grows the
    /// buffer, and the buffer is bounded by the cap, so any loop that stops
    /// when `feed` returns false — on end-of-file or a full buffer —
    /// terminates within [`UUID_TEXT_CAP`] non-empty chunks.
    pub fn feed(&mut self, chunk: &Vec<u8>) -> (more: bool)
        requires
            old(self).inv(),
            chunk@.len() <= UUID_TEXT_CAP - old(self)@.len(),
        ensures
            final(self)@ == old(self)@ + chunk@,
            final(self).inv(),
            more == (chunk@.len() > 0 && final(self)@.len() < UUID_TEXT_CAP),
            chunk@.len() > 0 ==> final(self)@.len() > old(self)@.len(),
    {
        let ghost orig = self.buf@;
        let mut i: usize = 0;
        while i < chunk.len()
            invariant
                i <= chunk@.len(),
                self.buf@ == orig + chunk@.subrange(0, i as int),
            decreases chunk@.len() - i,
        {
            self.buf.push(chunk[i]);
            i += 1;
            proof {
                assert(self.buf@ =~= orig + chunk@.subrange(0, i as int));
            }
        }
        proof {
            assert(orig + chunk@.subrange(0, chunk@.len() as int) =~= orig + chunk@);
        }
        chunk.len() > 0 && self.buf.len() < UUID_TEXT_CAP
    }

    /// The accumulated content.
    pub fn into_bytes(self) -> (r: Vec<u8>)
        ensures
            r@ == self@,
    {
        self.buf
    }
}

} // verus!
