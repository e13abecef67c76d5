//! Assembly of a streamed object into one contiguous, record-aligned buffer.
//!
//! A `BufferDecoder` is created from the declared byte length of the object
//! and the fixed element size. The declared length must be an exact multiple
//! of the element size — anything else is a fatal alignment violation, not a
//! truncation to tolerate. Each network chunk is copied to its byte offset as
//! it arrives; a chunk reaching past the unwritten rest of the buffer is a
//! fatal length mismatch.

use vstd::prelude::*;

use crate::bytebuf::{bytes_len, bytes_to_vec, bytes_view};
use crate::error::ProtocolError;

verus! {

pub struct BufferDecoder {
    buf: Vec<u8>,
    written: usize,
    element_size: usize,
}

impl BufferDecoder {
    /// The bytes received so far, in arrival order.
    pub closed spec fn received(self) -> Seq<u8> {
        self.buf@.subrange(0, self.written as int)
    }

    /// The declared byte length of the object being assembled.
    pub closed spec fn capacity(self) -> int {
        self.buf@.len() as int
    }

    /// The fixed element size, in bytes.
    pub closed spec fn elem(self) -> int {
        self.element_size as int
    }

    /// The decoder's invariant: the element size is positive, the buffer is
    /// sized to the declared length, which is an exact multiple of the
    /// element size, and the write position lies inside the buffer.
    pub closed spec fn wf(self) -> bool {
        &&& self.element_size > 0
        &&& self.written <= self.buf@.len()
        &&& (self.buf@.len() as int) % (self.element_size as int) == 0
    }

    /// Make a decoder for an object of `declared_size` bytes holding
    /// elements of `element_size` bytes each. A declared size that is not an
    /// exact multiple of the element size is a fatal alignment violation.
    pub fn new(declared_size: usize, element_size: usize) -> (r: Result<
        BufferDecoder,
        ProtocolError,
    >)
        requires
            element_size > 0,
        ensures
            (declared_size as int) % (element_size as int) == 0 ==> (r matches Ok(d) && {
                &&& d.wf()
                &&& d.capacity() == declared_size
                &&& d.elem() == element_size
                &&& d.received() == Seq::<u8>::empty()
            }),
            (declared_size as int) % (element_size as int) != 0 ==> r == Err::<
                BufferDecoder,
                ProtocolError,
            >(ProtocolError::Misaligned),
    {
        if declared_size % element_size != 0 {
            return Err(ProtocolError::Misaligned);
        }
        let mut buf: Vec<u8> = Vec::new();
        while buf.len() < declared_size
            invariant
                buf@.len() <= declared_size,
            decreases declared_size - buf@.len(),
        {
            buf.push(0u8);
        }
        let d = BufferDecoder { buf, written: 0, element_size };
        proof {
            assert(d.received() =~= Seq::<u8>::empty());
        }
        Ok(d)
    }

    /// The number of whole elements the assembled object will hold.
    pub fn element_count(&self) -> (r: usize)
        requires
            self.wf(),
        ensures
            r == self.capacity() / self.elem(),
    {
        self.buf.len() / self.element_size
    }

    /// How many bytes have been received so far.
    pub fn received_len(&self) -> (r: usize)
        requires
            self.wf(),
        ensures
            r == self.received().len(),
    {
        self.written
    }

    /// Whether every declared byte has been received.
    pub fn is_complete(&self) -> (r: bool)
        requires
            self.wf(),
        ensures
            r == (self.received().len() == self.capacity()),
    {
        self.written == self.buf.len()
    }

    /// Copy the next chunk of the stream into place, directly after the
    /// bytes already received. A chunk that reaches past the declared length
    /// is a fatal length mismatch, and the state is left unchanged.
    pub fn write_chunk(&mut self, chunk: &bytes::Bytes) -> (r: Result<(), ProtocolError>)
        requires
            old(self).wf(),
        ensures
            final(self).wf(),
            final(self).capacity() == old(self).capacity(),
            final(self).elem() == old(self).elem(),
            old(self).received().len() + bytes_view(*chunk).len() <= old(self).capacity() ==> (
            r is Ok && final(self).received() == old(self).received() + bytes_view(*chunk)),
            old(self).received().len() + bytes_view(*chunk).len() > old(self).capacity() ==> (r
                == Err::<(), ProtocolError>(ProtocolError::ChunkOverflow) && *final(self) == *old(
                self,
            )),
    {
        let n = bytes_len(chunk);
        if n > self.buf.len() - self.written {
            return Err(ProtocolError::ChunkOverflow);
        }
        let piece = bytes_to_vec(chunk);
        let ghost pre = *self;
        let mut i: usize = 0;
        while i < n
            invariant
                pre.wf(),
                n == piece@.len(),
                piece@ == bytes_view(*chunk),
                i <= n,
                pre.buf@.len() <= usize::MAX,
                n <= pre.buf@.len() - pre.written,
                self.written == pre.written,
                self.element_size == pre.element_size,
                self.buf@.len() == pre.buf@.len(),
                forall|j: int|
                    0 <= j < pre.buf@.len() && !(pre.written <= j < pre.written + i)
                        ==> self.buf@[j] == pre.buf@[j],
                forall|j: int| 0 <= j < i ==> self.buf@[pre.written + j] == piece@[j],
            decreases n - i,
        {
            self.buf[self.written + i] = piece[i];
            i = i + 1;
        }
        self.written = self.written + n;
        proof {
            assert(self.received() =~= pre.received() + bytes_view(*chunk));
        }
        Ok(())
    }

    /// Hand the fully assembled object out. Only a complete object can be
    /// taken: short reads never produce a truncated buffer.
    pub fn into_buffer(self) -> (r: Vec<u8>)
        requires
            self.wf(),
            self.received().len() == self.capacity(),
        ensures
            r@ == self.received(),
    {
        proof {
            assert(self.buf@.subrange(0, self.buf@.len() as int) =~= self.buf@);
        }
        self.buf
    }
}

} // verus!
