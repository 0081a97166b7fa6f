//! A reader over in-memory bytes, handing them out in buffer-sized windows.
use vstd::prelude::*;

verus! {

/// A buffered-for-streaming reader for slice-based sources.
#[derive(Debug)]
pub struct SliceReader {
    source: Vec<u8>,
    len: usize,
    position: usize,
}

/// The bytes between `start` and `end`, clamped to the end of `bytes`.
pub open spec fn window(bytes: Seq<u8>, start: int, size: int) -> Seq<u8> {
    bytes.subrange(start, if start + size < bytes.len() { start + size } else { bytes.len() as int })
}

impl SliceReader {
    /// `BufReader`'s current buffer size.
    pub const BUFFER_SIZE: usize = 8192;

    #[verifier::type_invariant]
    spec fn inv(self) -> bool {
        &&& self.len == self.source@.len()
        &&& self.position <= self.len
    }

    /// The bytes being read.
    pub closed spec fn spec_source(&self) -> Seq<u8> {
        self.source@
    }

    /// How many bytes have been consumed.
    pub closed spec fn spec_position(&self) -> int {
        self.position as int
    }

    /// Creates a reader at the start of `source`.
    pub fn new(source: Vec<u8>) -> (reader: Self)
        ensures
            reader.spec_source() == source@,
            reader.spec_position() == 0,
    {
        let len = source.len();
        SliceReader { source, len, position: 0 }
    }

    /// Check the number of bytes remaining in the source.
    pub fn remaining(&self) -> (remaining: usize)
        ensures
            remaining == self.spec_source().len() - self.spec_position(),
            0 <= self.spec_position() <= self.spec_source().len(),
    {
        proof {
            use_type_invariant(self);
        }
        self.len - self.position
    }

    /// Check if the reader has reached the end of the source.
    pub fn is_exhausted(&self) -> (exhausted: bool)
        ensures
            exhausted == (self.spec_position() >= self.spec_source().len()),
            exhausted == (self.spec_source().len() - self.spec_position() == 0),
            0 <= self.spec_position() <= self.spec_source().len(),
    {
        proof {
            use_type_invariant(self);
        }
        self.position >= self.len
    }

    /// Update the position after consuming bytes, stopping at the end of the source.
    pub fn consume(&mut self, amt: usize)
        requires
            old(self).spec_position() + amt <= usize::MAX,
        ensures
            final(self).spec_source() == old(self).spec_source(),
            final(self).spec_position() == (if old(self).spec_position() + amt < old(self).spec_source().len() {
                old(self).spec_position() + amt
            } else {
                old(self).spec_source().len() as int
            }),
            0 <= final(self).spec_position() <= final(self).spec_source().len(),
            final(self).spec_source().len() - final(self).spec_position() <= old(self).spec_source().len()
                - old(self).spec_position(),
    {
        proof {
            use_type_invariant(&*self);
        }
        let next = self.position + amt;
        self.position = if next < self.len {
            next
        } else {
            self.len
        };
    }

    /// Get the current buffer window.
    fn current_buffer(&self) -> (buffer: &[u8])
        ensures
            buffer@ == window(self.spec_source(), self.spec_position(), Self::BUFFER_SIZE as int),
    {
        proof {
            use_type_invariant(self);
        }
        let end = if self.len - self.position > Self::BUFFER_SIZE {
            self.position + Self::BUFFER_SIZE
        } else {
            self.len
        };
        let (head, _) = self.source.as_slice().split_at(end);
        let (_, piece) = head.split_at(self.position);
        assert(piece@ =~= window(self.source@, self.position as int, Self::BUFFER_SIZE as int));
        piece
    }

    /// Get a slice of the source data from the current position.
    fn get_slice(&self, amt: usize) -> (slice: &[u8])
        requires
            self.spec_position() + amt <= self.spec_source().len(),
        ensures
            slice@ == self.spec_source().subrange(self.spec_position(), self.spec_position() + amt),
    {
        proof {
            use_type_invariant(self);
        }
        let (head, _) = self.source.as_slice().split_at(self.position + amt);
        let (_, slice) = head.split_at(self.position);
        assert(slice@ =~= self.source@.subrange(self.position as int, self.position + amt));
        slice
    }

    /// Read data into the provided buffer, returning the number of bytes read.
    fn read_into(&mut self, buf: &mut [u8]) -> (amt: usize)
        ensures
            amt == (if old(self).spec_source().len() - old(self).spec_position() < old(buf)@.len() {
                old(self).spec_source().len() - old(self).spec_position()
            } else {
                old(buf)@.len() as int
            }),
            final(self).spec_source() == old(self).spec_source(),
            final(self).spec_position() == old(self).spec_position() + amt,
            final(buf)@.len() == old(buf)@.len(),
            final(buf)@.take(amt as int) == old(self).spec_source().subrange(
                old(self).spec_position(),
                old(self).spec_position() + amt,
            ),
            final(buf)@.skip(amt as int) == old(buf)@.skip(amt as int),
    {
        proof {
            use_type_invariant(&*self);
        }
        let remaining = self.remaining();
        let amt = if remaining < buf.len() {
            remaining
        } else {
            buf.len()
        };
        let source = self.get_slice(amt);
        let mut i: usize = 0;
        while i < amt
            invariant
                0 <= i <= amt <= buf@.len(),
                amt <= source@.len(),
                buf@.len() == old(buf)@.len(),
                forall|k: int| 0 <= k < i ==> buf@[k] == source@[k],
                forall|k: int| amt <= k < buf@.len() ==> buf@[k] == old(buf)@[k],
            decreases amt - i,
        {
            buf[i] = source[i];
            i = i + 1;
        }
        assert(buf@.take(amt as int) =~= source@);
        assert(buf@.skip(amt as int) =~= old(buf)@.skip(amt as int));
        self.position = self.position + amt;
        amt
    }

    /// The next window of unread bytes, without consuming them; empty at the end.
    pub fn fill_buf(&mut self) -> (buffer: &[u8])
        ensures
            *final(self) == *old(self),
            buffer@ == window(old(self).spec_source(), old(self).spec_position(), Self::BUFFER_SIZE as int),
    {
        proof {
            use_type_invariant(&*self);
        }
        if self.is_exhausted() {
            assert(window(self.source@, self.position as int, Self::BUFFER_SIZE as int) =~= Seq::<u8>::empty());
            return &[];
        }
        self.current_buffer()
    }

    /// Reads bytes by copying them into `buf`, returning how many were read.
    pub fn read(&mut self, buf: &mut [u8]) -> (amt: usize)
        ensures
            amt == (if old(self).spec_source().len() - old(self).spec_position() < old(buf)@.len() {
                old(self).spec_source().len() - old(self).spec_position()
            } else {
                old(buf)@.len() as int
            }),
            final(self).spec_source() == old(self).spec_source(),
            final(self).spec_position() == old(self).spec_position() + amt,
            final(buf)@.len() == old(buf)@.len(),
            final(buf)@.take(amt as int) == old(self).spec_source().subrange(
                old(self).spec_position(),
                old(self).spec_position() + amt,
            ),
            final(buf)@.skip(amt as int) == old(buf)@.skip(amt as int),
            0 <= final(self).spec_position() <= final(self).spec_source().len(),
            final(self).spec_source().len() - final(self).spec_position() <= old(self).spec_source().len()
                - old(self).spec_position(),
    {
        proof {
            use_type_invariant(&*self);
        }
        if self.is_exhausted() {
            assert(old(buf)@.take(0) =~= Seq::<u8>::empty());
            assert(self.source@.subrange(self.position as int, self.position as int) =~= Seq::<u8>::empty());
            return 0;
        }
        self.read_into(buf)
    }
}

impl Clone for SliceReader {
    fn clone(&self) -> (copy: Self)
        ensures
            copy.spec_source() == self.spec_source(),
            copy.spec_position() == self.spec_position(),
    {
        proof {
            use_type_invariant(self);
        }
        let source = self.source.clone();
        assert(source@ =~= self.source@);
        SliceReader { source, len: self.len, position: self.position }
    }
}

} // verus!
