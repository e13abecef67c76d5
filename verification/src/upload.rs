//! The part-cutting engine of a resumable chunked multipart upload.
//!
//! A `PartBuffer` accumulates an unbounded incoming byte stream and cuts one
//! store part of exactly `size_per_upload` bytes whenever the buffer holds
//! that much, with at most one part in flight at a time; the in-flight
//! part's completion tag is folded into the persisted `UploadInfo` before
//! any new part is started, which keeps the tag list in strict part-number
//! order. On completion, the remainder is taken as the true final part. The
//! network calls themselves are the unverified driver's work: this engine
//! decides what bytes form which part, under which number, and what state
//! is committed.

use vstd::prelude::*;

use crate::bytebuf::{bytes_mut_extend, bytes_mut_freeze, bytes_mut_len, bytes_mut_new,
    bytes_mut_split_to, bytes_mut_view, bytes_view};
use crate::chunker::RecordChunker;
use crate::decoder::BufferDecoder;
use crate::seqtools::{lemma_flatten_uniform_len, lemma_flatten_uniform_len_but_last};

verus! {

/// The part size used when the caller names none.
pub const DEFAULT_PART_SIZE: usize = 512 << 20;

/// The serializable, resumable state of one multipart upload. `parts` holds
/// one completion tag per committed part, in part-number order (part number
/// = position + 1); `uploaded_bytes` is the cumulative committed byte
/// count. An interrupted upload is resumed by building a fresh `PartBuffer`
/// over this record.
#[derive(Clone, Debug)]
pub struct UploadInfo {
    pub bucket: String,
    pub key: String,
    pub size_per_upload: usize,
    pub upload_id: String,
    pub parts: Vec<String>,
    pub uploaded_bytes: usize,
}

/// The persisted state of a whole set of independent uploads, one per
/// partition, in partition order.
#[derive(Clone, Debug)]
pub struct MultiUploadInfo {
    pub uploads: Vec<UploadInfo>,
}

/// One entry of the ordered list handed to the store's multipart
/// completion: a 1-based part number and the tag the store issued for that
/// part.
#[derive(Clone, Debug)]
pub struct NumberedPart {
    pub part_number: usize,
    pub e_tag: String,
}

pub struct PartBuffer {
    /// The resumable state this session commits into.
    pub info: UploadInfo,
    data: bytes::BytesMut,
    in_flight: Option<usize>,
    finalizing: bool,
    taken_in: Ghost<Seq<u8>>,
    part_log: Ghost<Seq<Seq<u8>>>,
    start_parts: Ghost<int>,
    start_bytes: Ghost<int>,
}

impl PartBuffer {
    /// The resumable state as the contracts see it.
    pub closed spec fn info_spec(self) -> UploadInfo {
        self.info
    }

    /// Every byte pushed into this session so far, in order.
    pub closed spec fn pushed(self) -> Seq<u8> {
        self.taken_in@
    }

    /// The payload of every part taken in this session, in part order,
    /// the in-flight one included.
    pub closed spec fn parts_taken(self) -> Seq<Seq<u8>> {
        self.part_log@
    }

    /// The bytes accumulated but not yet cut into a part.
    pub closed spec fn buffered(self) -> Seq<u8> {
        bytes_mut_view(self.data)
    }

    /// The byte size of the in-flight part, while one is out.
    pub closed spec fn pending(self) -> Option<usize> {
        self.in_flight
    }

    /// Whether the final remainder part has been taken: no further bytes
    /// are accepted afterwards.
    pub closed spec fn finalized(self) -> bool {
        self.finalizing
    }

    /// The configured part size, in bytes.
    pub closed spec fn size(self) -> int {
        self.info.size_per_upload as int
    }

    /// How many parts the persisted state already held when this session
    /// began (zero for a fresh upload, more after a resume).
    pub closed spec fn base_parts(self) -> int {
        self.start_parts@
    }

    /// The committed byte count the persisted state already held when this
    /// session began.
    pub closed spec fn base_bytes(self) -> int {
        self.start_bytes@
    }

    /// One while a part is in flight, else zero.
    pub closed spec fn pending_count(self) -> int {
        if self.pending() is Some {
            1
        } else {
            0
        }
    }

    /// The payloads of the parts whose tags have been folded in: every
    /// taken part except the in-flight one.
    pub closed spec fn committed(self) -> Seq<Seq<u8>> {
        self.parts_taken().take(self.parts_taken().len() - self.pending_count())
    }

    /// The session's invariant. Parts are cut in order from the front of
    /// the stream, so the taken parts followed by the buffered leftover are
    /// exactly the pushed bytes; every part is a full `size_per_upload`
    /// bytes except, once finalized, the last; the in-flight part is always
    /// the last taken; one tag is held per taken part except the in-flight
    /// one, on top of those the session began with; and the committed byte
    /// count grows by exactly the folded parts' sizes.
    pub closed spec fn wf(self) -> bool {
        &&& self.info_spec().size_per_upload > 0
        &&& self.parts_taken().flatten() + self.buffered() == self.pushed()
        &&& (self.pending() matches Some(n) ==> self.parts_taken().len() > 0 && n
            == self.parts_taken().last().len())
        &&& self.info_spec().parts@.len() + self.pending_count() == self.base_parts()
            + self.parts_taken().len()
        &&& self.base_parts() >= 0
        &&& self.base_bytes() >= 0
        &&& forall|i: int|
            0 <= i < self.parts_taken().len() ==> ((#[trigger] self.parts_taken()[i]).len()
                == self.size() || (self.finalized() && i == self.parts_taken().len() - 1))
        &&& forall|i: int| 0 <= i < self.parts_taken().len() ==> (#[trigger] self.parts_taken()[i]).len() > 0
        &&& (self.finalized() ==> self.buffered().len() == 0)
        &&& self.info_spec().uploaded_bytes == self.base_bytes() + self.committed().flatten().len()
    }

    /// Begin a session over a persisted state: fresh from the store's
    /// multipart-upload creation, or restored after an interruption. No
    /// part is re-uploaded and the existing tags stay as they are.
    pub fn new(info: UploadInfo) -> (r: Self)
        requires
            info.size_per_upload > 0,
        ensures
            r.wf(),
            r.info_spec() == info,
            r.pushed() == Seq::<u8>::empty(),
            r.parts_taken() == Seq::<Seq<u8>>::empty(),
            r.buffered() == Seq::<u8>::empty(),
            r.pending() is None,
            !r.finalized(),
            r.base_parts() == info.parts@.len(),
            r.base_bytes() == info.uploaded_bytes,
    {
        let ghost start_parts = info.parts@.len() as int;
        let ghost start_bytes = info.uploaded_bytes as int;
        let r = PartBuffer {
            info,
            data: bytes_mut_new(),
            in_flight: None,
            finalizing: false,
            taken_in: Ghost(Seq::empty()),
            part_log: Ghost(Seq::empty()),
            start_parts: Ghost(start_parts),
            start_bytes: Ghost(start_bytes),
        };
        proof {
            assert(r.parts_taken().flatten() + r.buffered() =~= r.pushed());
            assert(r.committed() =~= Seq::<Seq<u8>>::empty());
        }
        r
    }

    /// Accept the next piece of the incoming byte stream. Bytes are only
    /// accumulated here; parts are cut by `take_part`.
    pub fn push(&mut self, data: bytes::Bytes)
        requires
            old(self).wf(),
            !old(self).finalized(),
            old(self).buffered().len() + bytes_view(data).len() <= usize::MAX,
        ensures
            final(self).wf(),
            final(self).info_spec() == old(self).info_spec(),
            final(self).pushed() == old(self).pushed() + bytes_view(data),
            final(self).buffered() == old(self).buffered() + bytes_view(data),
            final(self).parts_taken() == old(self).parts_taken(),
            final(self).pending() == old(self).pending(),
            !final(self).finalized(),
            final(self).base_parts() == old(self).base_parts(),
            final(self).base_bytes() == old(self).base_bytes(),
    {
        bytes_mut_extend(&mut self.data, &data);
        proof {
            self.taken_in@ = self.taken_in@ + bytes_view(data);
            assert(self.parts_taken().flatten() + self.buffered() =~= self.pushed());
        }
    }

    /// Whether a full part's worth of bytes is buffered.
    pub fn wants_part(&self) -> (r: bool)
        requires
            self.wf(),
        ensures
            r == (self.buffered().len() >= self.size()),
    {
        bytes_mut_len(&self.data) >= self.info.size_per_upload
    }

    /// The size of the in-flight part, while one is out.
    pub fn pending_part(&self) -> (r: Option<usize>)
        requires
            self.wf(),
        ensures
            r == self.pending(),
    {
        self.in_flight
    }

    /// How many bytes are buffered and not yet cut into a part.
    pub fn buffered_len(&self) -> (r: usize)
        requires
            self.wf(),
        ensures
            r == self.buffered().len(),
    {
        bytes_mut_len(&self.data)
    }

    /// Cut the next part: exactly the first `size_per_upload` buffered
    /// bytes, under the next part number. The previous part must have been
    /// folded first — that order is what keeps the tag list aligned with
    /// the part numbers.
    pub fn take_part(&mut self) -> (r: (bytes::Bytes, usize))
        requires
            old(self).wf(),
            old(self).pending() is None,
            !old(self).finalized(),
            old(self).buffered().len() >= old(self).size(),
            old(self).info_spec().parts@.len() < usize::MAX,
        ensures
            final(self).wf(),
            final(self).info_spec() == old(self).info_spec(),
            bytes_view(r.0) == old(self).buffered().subrange(0, old(self).size()),
            r.1 == old(self).info_spec().parts@.len() + 1,
            final(self).buffered() == old(self).buffered().subrange(
                old(self).size(),
                old(self).buffered().len() as int,
            ),
            final(self).parts_taken() == old(self).parts_taken().push(
                old(self).buffered().subrange(0, old(self).size()),
            ),
            final(self).pending() == Some(old(self).info_spec().size_per_upload),
            final(self).pushed() == old(self).pushed(),
            !final(self).finalized(),
            final(self).base_parts() == old(self).base_parts(),
            final(self).base_bytes() == old(self).base_bytes(),
    {
        let ghost old_log = self.part_log@;
        let ghost old_buffered = self.buffered();
        let head = bytes_mut_split_to(&mut self.data, self.info.size_per_upload);
        let payload = bytes_mut_freeze(head);
        let part_number = self.info.parts.len() + 1;
        proof {
            self.part_log@ = self.part_log@.push(bytes_view(payload));
        }
        self.in_flight = Some(self.info.size_per_upload);
        proof {
            old_log.lemma_flatten_push(old_buffered.subrange(0, self.size()));
            assert(old_buffered.subrange(0, self.size()) + old_buffered.subrange(
                self.size(),
                old_buffered.len() as int,
            ) =~= old_buffered);
            assert(self.parts_taken().flatten() + self.buffered() =~= self.pushed());
            assert(self.committed() =~= old_log.take(old_log.len() as int));
            assert(old_log.take(old_log.len() as int) =~= old_log);
        }
        (payload, part_number)
    }

    /// Fold the in-flight part's completion back into the persisted state:
    /// its tag is appended — so its position matches its part number — and
    /// its size is added to the committed byte count.
    pub fn fold_part(&mut self, e_tag: String)
        requires
            old(self).wf(),
            old(self).pending() is Some,
            old(self).info_spec().uploaded_bytes + old(self).pending()->Some_0 <= usize::MAX,
        ensures
            final(self).wf(),
            final(self).info_spec().parts@ == old(self).info_spec().parts@.push(e_tag),
            final(self).info_spec().uploaded_bytes == old(self).info_spec().uploaded_bytes + old(
                self,
            ).pending()->Some_0,
            final(self).info_spec().bucket == old(self).info_spec().bucket,
            final(self).info_spec().key == old(self).info_spec().key,
            final(self).info_spec().upload_id == old(self).info_spec().upload_id,
            final(self).info_spec().size_per_upload == old(self).info_spec().size_per_upload,
            final(self).pending() is None,
            final(self).pushed() == old(self).pushed(),
            final(self).buffered() == old(self).buffered(),
            final(self).parts_taken() == old(self).parts_taken(),
            final(self).finalized() == old(self).finalized(),
            final(self).base_parts() == old(self).base_parts(),
            final(self).base_bytes() == old(self).base_bytes(),
    {
        let ghost old_log = self.part_log@;
        if let Some(n) = self.in_flight {
            self.info.uploaded_bytes = self.info.uploaded_bytes + n;
            self.info.parts.push(e_tag);
            self.in_flight = None;
        }
        proof {
            let len = old_log.len() as int;
            assert(old_log.take(len - 1).push(old_log.last()) =~= old_log);
            old_log.take(len - 1).lemma_flatten_push(old_log.last());
            assert(self.committed() =~= old_log);
        }
    }

    /// Take the true final part: whatever remainder is still buffered, as
    /// one part under the next number, even though it is smaller than a
    /// full part. With nothing buffered there is no final part — an upload
    /// that received no bytes at all completes with an empty part list.
    pub fn take_final_part(&mut self) -> (r: Option<(bytes::Bytes, usize)>)
        requires
            old(self).wf(),
            old(self).pending() is None,
            !old(self).finalized(),
            old(self).info_spec().parts@.len() < usize::MAX,
        ensures
            final(self).wf(),
            final(self).info_spec() == old(self).info_spec(),
            final(self).finalized(),
            final(self).buffered().len() == 0,
            final(self).pushed() == old(self).pushed(),
            final(self).base_parts() == old(self).base_parts(),
            final(self).base_bytes() == old(self).base_bytes(),
            old(self).buffered().len() == 0 ==> r is None && final(self).parts_taken() == old(
                self,
            ).parts_taken() && final(self).pending() is None,
            old(self).buffered().len() > 0 ==> (r matches Some(p) && {
                &&& bytes_view(p.0) == old(self).buffered()
                &&& p.1 == old(self).info_spec().parts@.len() + 1
                &&& final(self).parts_taken() == old(self).parts_taken().push(
                    old(self).buffered(),
                )
                &&& final(self).pending() == Some(old(self).buffered().len() as usize)
            }),
    {
        let ghost old_log = self.part_log@;
        let ghost old_buffered = self.buffered();
        let len = bytes_mut_len(&self.data);
        self.finalizing = true;
        if len == 0 {
            return None;
        }
        let head = bytes_mut_split_to(&mut self.data, len);
        let payload = bytes_mut_freeze(head);
        let part_number = self.info.parts.len() + 1;
        proof {
            self.part_log@ = self.part_log@.push(bytes_view(payload));
        }
        self.in_flight = Some(len);
        proof {
            old_log.lemma_flatten_push(old_buffered);
            assert(bytes_view(payload) =~= old_buffered);
            assert(self.buffered() =~= Seq::<u8>::empty());
            assert(self.parts_taken().flatten() + self.buffered() =~= self.pushed());
            assert(self.committed() =~= old_log.take(old_log.len() as int));
            assert(old_log.take(old_log.len() as int) =~= old_log);
        }
        Some((payload, part_number))
    }

    /// The ordered list the store's completion call needs: every committed
    /// tag under its 1-based part number, in commit order.
    pub fn completion_parts(&self) -> (r: Vec<NumberedPart>)
        requires
            self.wf(),
            self.pending() is None,
        ensures
            r@.len() == self.info_spec().parts@.len(),
            forall|i: int|
                0 <= i < r@.len() ==> (#[trigger] r@[i]).part_number == i + 1 && r@[i].e_tag
                    == self.info_spec().parts@[i],
    {
        let mut r: Vec<NumberedPart> = Vec::new();
        let mut i: usize = 0;
        while i < self.info.parts.len()
            invariant
                i <= self.info_spec().parts@.len(),
                r@.len() == i,
                forall|j: int|
                    0 <= j < i ==> (#[trigger] r@[j]).part_number == j + 1 && r@[j].e_tag
                        == self.info_spec().parts@[j],
            decreases self.info_spec().parts@.len() - i,
        {
            let e_tag = self.info.parts[i].clone();
            r.push(NumberedPart { part_number: i + 1, e_tag });
            i = i + 1;
        }
        r
    }

    /// Exact-multiple case of part ordering: a drained, finalized session
    /// whose parts are all full committed exactly `pushed / size` parts —
    /// one per crossing of the part boundary — whose payloads are, in
    /// order, the pushed bytes themselves; the tag list grew by exactly
    /// that many tags.
    pub proof fn lemma_part_partition_exact(self)
        requires
            self.wf(),
            self.finalized(),
            self.pending() is None,
            self.parts_taken().len() == 0 || self.parts_taken().last().len() == self.size(),
        ensures
            self.parts_taken().flatten() == self.pushed(),
            self.pushed().len() == self.parts_taken().len() * self.size(),
            self.parts_taken().len() == (self.pushed().len() as int) / self.size(),
            (self.pushed().len() as int) % self.size() == 0,
            self.info_spec().parts@.len() == self.base_parts() + self.parts_taken().len(),
    {
        assert(self.parts_taken().flatten() + self.buffered() =~= self.parts_taken().flatten());
        lemma_flatten_uniform_len(self.parts_taken(), self.size());
        vstd::arithmetic::div_mod::lemma_fundamental_div_mod_converse(
            self.pushed().len() as int,
            self.size(),
            self.parts_taken().len() as int,
            0,
        );
    }

    /// Remainder case of part ordering: a drained, finalized session whose
    /// last part is a true remainder — smaller than a full part — committed
    /// exactly `pushed / size` full parts, one per crossing of the part
    /// boundary, plus that one final part holding the remaining
    /// `pushed % size` bytes; the payloads are, in order, the pushed bytes
    /// themselves, and the tag list grew by exactly that many tags.
    pub proof fn lemma_part_partition_remainder(self)
        requires
            self.wf(),
            self.finalized(),
            self.pending() is None,
            self.parts_taken().len() > 0,
            self.parts_taken().last().len() < self.size(),
        ensures
            self.parts_taken().flatten() == self.pushed(),
            self.parts_taken().len() == (self.pushed().len() as int) / self.size() + 1,
            self.parts_taken().last().len() == (self.pushed().len() as int) % self.size(),
            (self.pushed().len() as int) % self.size() != 0,
            self.info_spec().parts@.len() == self.base_parts() + self.parts_taken().len(),
    {
        assert(self.parts_taken().flatten() + self.buffered() =~= self.parts_taken().flatten());
        lemma_flatten_uniform_len_but_last(self.parts_taken(), self.size());
        vstd::arithmetic::div_mod::lemma_fundamental_div_mod_converse(
            self.pushed().len() as int,
            self.size(),
            self.parts_taken().len() - 1,
            self.parts_taken().last().len() as int,
        );
    }

    /// A session over a fresh upload state that
    /// received no bytes finalizes with no parts taken and an empty tag
    /// list: the store's completion is issued with an empty part list, and
    /// no zero-byte part is ever cut.
    pub proof fn lemma_empty_stream_completion(self)
        requires
            self.wf(),
            self.pushed().len() == 0,
            self.pending() is None,
            self.base_parts() == 0,
        ensures
            self.parts_taken().len() == 0,
            self.info_spec().parts@.len() == 0,
    {
        if self.parts_taken().len() > 0 {
            self.parts_taken().lemma_flatten_length_ge_single_element_length(0);
            self.parts_taken().lemma_flatten_and_flatten_alt_are_equivalent();
        }
    }
}

/// Bytes sent through an upload session come back unchanged.
/// If the store object holds exactly the committed parts in order (which is
/// what a multipart completion makes of them), and a download re-chunks
/// that object to exhaustion and assembles every chunk to completion, the
/// assembled buffer is byte-for-byte the uploaded stream.
pub proof fn lemma_round_trip(u: PartBuffer, c: RecordChunker, d: BufferDecoder)
    requires
        u.wf(),
        u.finalized(),
        u.pending() is None,
        c.wf(),
        c.input() == u.parts_taken().flatten(),
        c.buffered().len() == 0,
        d.wf(),
        d.received() == c.emitted().flatten(),
        d.received().len() == d.capacity(),
    ensures
        d.received() == u.pushed(),
{
    assert(u.parts_taken().flatten() + u.buffered() =~= u.parts_taken().flatten());
    c.lemma_chunk_exactness();
}

} // verus!
