//! Re-segmentation of an arbitrary-granularity byte stream into fixed-size
//! records.
//!
//! A `RecordChunker` accumulates whatever pieces the stream delivers and
//! hands out records of exactly `chunk_size` bytes, in input order,
//! optionally stopping after a caller-given record count. A stream that ends
//! while bytes are still buffered broke the protocol: every valid input is an
//! exact multiple of the record size.

use vstd::prelude::*;

use crate::bytebuf::{bytes_len, bytes_mut_extend, bytes_mut_freeze, bytes_mut_len, bytes_mut_new,
    bytes_mut_split_to, bytes_mut_view, bytes_view};
use crate::error::ProtocolError;
use crate::seqtools::lemma_flatten_uniform_len;

verus! {

/// The record count left after one record has been taken from the budget.
pub open spec fn dec_count(c: Option<usize>) -> Option<usize> {
    match c {
        None => None,
        Some(n) => Some((n - 1) as usize),
    }
}

pub struct RecordChunker {
    buf: bytes::BytesMut,
    chunk_size: usize,
    remaining: Option<usize>,
    taken_in: Ghost<Seq<u8>>,
    given_out: Ghost<Seq<Seq<u8>>>,
}

impl RecordChunker {
    /// Every byte pushed into this chunker so far, in order.
    pub closed spec fn input(self) -> Seq<u8> {
        self.taken_in@
    }

    /// Every record this chunker has yielded so far, in order.
    pub closed spec fn emitted(self) -> Seq<Seq<u8>> {
        self.given_out@
    }

    /// The bytes accumulated but not yet yielded.
    pub closed spec fn buffered(self) -> Seq<u8> {
        bytes_mut_view(self.buf)
    }

    /// The fixed record size, in bytes.
    pub closed spec fn size(self) -> int {
        self.chunk_size as int
    }

    /// How many more records may be yielded; `None` is no bound.
    pub closed spec fn bound(self) -> Option<usize> {
        self.remaining
    }

    /// The chunker's invariant: records are cut in order and to exact size,
    /// so the records yielded so far, followed by the buffered leftover, are
    /// exactly the bytes taken in.
    pub closed spec fn wf(self) -> bool {
        &&& self.chunk_size > 0
        &&& self.emitted().flatten() + self.buffered() == self.input()
        &&& forall|i: int|
            0 <= i < self.emitted().len() ==> (#[trigger] self.emitted()[i]).len() == self.size()
    }

    /// Whether the next call to `try_next` will yield a record.
    pub open spec fn ready(self) -> bool {
        self.bound() != Some(0usize) && self.buffered().len() >= self.size()
    }

    pub fn new(chunk_size: usize, count: Option<usize>) -> (r: Self)
        requires
            chunk_size > 0,
        ensures
            r.wf(),
            r.input() == Seq::<u8>::empty(),
            r.buffered() == Seq::<u8>::empty(),
            r.emitted() == Seq::<Seq<u8>>::empty(),
            r.size() == chunk_size,
            r.bound() == count,
    {
        let r = RecordChunker {
            buf: bytes_mut_new(),
            chunk_size,
            remaining: count,
            taken_in: Ghost(Seq::empty()),
            given_out: Ghost(Seq::empty()),
        };
        proof {
            assert(r.emitted().flatten() + r.buffered() =~= r.input());
        }
        r
    }

    /// Append the next piece the underlying stream delivered. Pieces may
    /// have any size; they are only accumulated here.
    pub fn push(&mut self, data: bytes::Bytes)
        requires
            old(self).wf(),
            old(self).buffered().len() + bytes_view(data).len() <= usize::MAX,
        ensures
            final(self).wf(),
            final(self).input() == old(self).input() + bytes_view(data),
            final(self).buffered() == old(self).buffered() + bytes_view(data),
            final(self).emitted() == old(self).emitted(),
            final(self).size() == old(self).size(),
            final(self).bound() == old(self).bound(),
    {
        bytes_mut_extend(&mut self.buf, &data);
        proof {
            self.taken_in@ = self.taken_in@ + bytes_view(data);
            assert(self.emitted().flatten() + self.buffered() =~= self.input());
        }
    }

    /// Yield the next record if one is ready: the budget is not exhausted
    /// and at least `chunk_size` bytes are buffered. The record is exactly
    /// the first `chunk_size` buffered bytes.
    pub fn try_next(&mut self) -> (r: Option<bytes::Bytes>)
        requires
            old(self).wf(),
        ensures
            final(self).wf(),
            final(self).size() == old(self).size(),
            final(self).input() == old(self).input(),
            old(self).ready() ==> {
                &&& r matches Some(c) && bytes_view(c) == old(self).buffered().subrange(
                    0,
                    old(self).size(),
                )
                &&& final(self).buffered() == old(self).buffered().subrange(
                    old(self).size(),
                    old(self).buffered().len() as int,
                )
                &&& final(self).emitted() == old(self).emitted().push(
                    old(self).buffered().subrange(0, old(self).size()),
                )
                &&& final(self).bound() == dec_count(old(self).bound())
            },
            !old(self).ready() ==> r is None && *final(self) == *old(self),
    {
        let exhausted = match self.remaining {
            Some(n) => n == 0,
            None => false,
        };
        if exhausted {
            return None;
        }
        let len = bytes_mut_len(&self.buf);
        if len < self.chunk_size {
            return None;
        }
        let ghost old_buffered = self.buffered();
        let ghost old_emitted = self.emitted();
        let head = bytes_mut_split_to(&mut self.buf, self.chunk_size);
        let chunk = bytes_mut_freeze(head);
        proof {
            self.given_out@ = self.given_out@.push(bytes_view(chunk));
        }
        if let Some(n) = self.remaining {
            self.remaining = Some(n - 1);
        }
        proof {
            old_emitted.lemma_flatten_push(old_buffered.subrange(0, self.size()));
            assert(old_buffered.subrange(0, self.size()) + old_buffered.subrange(
                self.size(),
                old_buffered.len() as int,
            ) =~= old_buffered);
            assert(self.emitted().flatten() + self.buffered() =~= self.input());
        }
        Some(chunk)
    }

    /// Whether the chunker needs another piece from the stream before it can
    /// yield again: its budget is not exhausted, and the buffer holds less
    /// than one record.
    pub fn wants_data(&self) -> (r: bool)
        requires
            self.wf(),
        ensures
            r == (self.bound() != Some(0usize) && self.buffered().len() < self.size()),
    {
        let exhausted = match self.remaining {
            Some(n) => n == 0,
            None => false,
        };
        !exhausted && bytes_mut_len(&self.buf) < self.chunk_size
    }

    /// How many bytes are buffered and not yet yielded.
    pub fn buffered_len(&self) -> (r: usize)
        requires
            self.wf(),
        ensures
            r == self.buffered().len(),
    {
        bytes_mut_len(&self.buf)
    }

    /// The underlying stream has ended. A non-empty leftover buffer means
    /// the stream ended in the middle of a record: a protocol violation.
    pub fn finish(&self) -> (r: Result<(), ProtocolError>)
        requires
            self.wf(),
        ensures
            r is Ok <==> self.buffered().len() == 0,
            r is Err ==> r == Err::<(), ProtocolError>(ProtocolError::UnexpectedEnd),
    {
        if bytes_mut_len(&self.buf) == 0 {
            Ok(())
        } else {
            Err(ProtocolError::UnexpectedEnd)
        }
    }

    /// Once a chunker has drained its buffer, the records
    /// it yielded each hold exactly `chunk_size` bytes, their concatenation
    /// is exactly the input, and the input length was an exact multiple of
    /// the record size — `input len / chunk_size` records in all.
    pub proof fn lemma_chunk_exactness(self)
        requires
            self.wf(),
            self.buffered().len() == 0,
        ensures
            self.emitted().flatten() == self.input(),
            forall|i: int|
                0 <= i < self.emitted().len() ==> (#[trigger] self.emitted()[i]).len()
                    == self.size(),
            self.input().len() == self.emitted().len() * self.size(),
            (self.input().len() as int) % self.size() == 0,
    {
        assert(self.emitted().flatten() + self.buffered() =~= self.emitted().flatten());
        lemma_flatten_uniform_len(self.emitted(), self.size());
        vstd::arithmetic::div_mod::lemma_fundamental_div_mod_converse(
            self.input().len() as int,
            self.size(),
            self.emitted().len() as int,
            0,
        );
    }

    /// When the bytes taken in are not an
    /// exact multiple of the record size, a fully drained chunker (less than
    /// one record buffered) still holds leftover bytes, so `finish` reports
    /// the unexpected end of the stream instead of yielding a short record.
    pub proof fn lemma_misaligned_rejected(self)
        requires
            self.wf(),
            (self.input().len() as int) % self.size() != 0,
            self.buffered().len() < self.size(),
        ensures
            self.buffered().len() != 0,
    {
        if self.buffered().len() == 0 {
            self.lemma_chunk_exactness();
        }
    }
}

/// Cut a complete in-memory buffer into records of exactly `chunk_size`
/// bytes. A buffer whose length is not an exact multiple of the record size
/// is rejected as a protocol violation, never silently truncated.
pub fn chunk_all(data: bytes::Bytes, chunk_size: usize) -> (r: Result<
    Vec<bytes::Bytes>,
    ProtocolError,
>)
    requires
        chunk_size > 0,
    ensures
        (bytes_view(data).len() as int) % (chunk_size as int) == 0 ==> (r matches Ok(v) && {
            &&& v@.len() * chunk_size == bytes_view(data).len()
            &&& forall|i: int|
                0 <= i < v@.len() ==> bytes_view(#[trigger] v@[i]) == bytes_view(data).subrange(
                    i * chunk_size,
                    (i + 1) * chunk_size,
                )
        }),
        (bytes_view(data).len() as int) % (chunk_size as int) != 0 ==> r == Err::<
            Vec<bytes::Bytes>,
            ProtocolError,
        >(ProtocolError::UnexpectedEnd),
{
    let ghost whole = bytes_view(data);
    let _ = bytes_len(&data);
    let mut chunker = RecordChunker::new(chunk_size, None);
    chunker.push(data);
    let mut out: Vec<bytes::Bytes> = Vec::new();
    loop
        invariant
            chunker.wf(),
            chunker.size() == chunk_size,
            chunker.bound() == None::<usize>,
            chunker.input() == whole,
            out@.len() == chunker.emitted().len(),
            chunker.emitted().flatten().len() == out@.len() * chunk_size,
            forall|i: int|
                0 <= i < out@.len() ==> bytes_view(#[trigger] out@[i]) == whole.subrange(
                    i * chunk_size,
                    (i + 1) * chunk_size,
                ),
        ensures
            chunker.wf(),
            chunker.size() == chunk_size,
            chunker.input() == whole,
            out@.len() == chunker.emitted().len(),
            chunker.emitted().flatten().len() == out@.len() * chunk_size,
            forall|i: int|
                0 <= i < out@.len() ==> bytes_view(#[trigger] out@[i]) == whole.subrange(
                    i * chunk_size,
                    (i + 1) * chunk_size,
                ),
            chunker.buffered().len() < chunk_size,
        decreases chunker.buffered().len(),
    {
        let ghost pre = chunker;
        match chunker.try_next() {
            Some(chunk) => {
                proof {
                    lemma_flatten_uniform_len(pre.emitted(), pre.size());
                    assert(pre.buffered() =~= whole.subrange(
                        pre.emitted().len() * chunk_size,
                        whole.len() as int,
                    ));
                    assert(bytes_view(chunk) =~= whole.subrange(
                        pre.emitted().len() * chunk_size,
                        pre.emitted().len() * chunk_size + chunk_size,
                    ));
                    assert((pre.emitted().len() + 1) * chunk_size == pre.emitted().len()
                        * chunk_size + chunk_size) by (nonlinear_arith);
                    pre.emitted().lemma_flatten_push(bytes_view(chunk));
                }
                out.push(chunk);
            },
            None => {
                break;
            },
        }
    }
    if chunker.finish().is_ok() {
        proof {
            chunker.lemma_chunk_exactness();
        }
        Ok(out)
    } else {
        proof {
            vstd::arithmetic::div_mod::lemma_fundamental_div_mod_converse(
                whole.len() as int,
                chunk_size as int,
                out@.len() as int,
                chunker.buffered().len() as int,
            );
        }
        Err(ProtocolError::UnexpectedEnd)
    }
}

} // verus!
