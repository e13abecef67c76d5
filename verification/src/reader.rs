//! The resume-on-failure policy of a ranged, record-oriented read.
//!
//! A ranged read is issued from a cursor measured in records. Every record
//! that arrives is delivered and advances the cursor; every failure is
//! counted, and the read is re-issued from the first not-yet-delivered
//! record — never from the beginning — until too many failures arrive in a
//! row with no record between them. The decisions live here; issuing the
//! reads and driving the byte stream is the unverified driver's work.

use vstd::prelude::*;

verus! {

/// How many consecutive record-level failures are tolerated before the
/// stream fails for good. The counter resets on every delivered record, so
/// scattered single failures never accumulate to this threshold.
pub const FAILURE_LIMIT: usize = 5;

/// A position in a ranged read, in record offsets: the next record to
/// deliver, and one past the last record wanted (`None` for the object's
/// tail).
pub struct StreamCursor {
    pub start_index: usize,
    pub end_index: Option<usize>,
}

impl StreamCursor {
    /// A bounded cursor never ends before it starts.
    pub open spec fn wf(self) -> bool {
        match self.end_index {
            Some(e) => self.start_index <= e,
            None => true,
        }
    }
}

/// What the underlying byte stream reported next: one whole record, a read
/// failure, or its clean end.
#[derive(Clone, Copy, Debug, PartialEq, Eq, Structural)]
pub enum ReadEvent {
    Record,
    Failure,
    End,
}

/// What the reader decides: hand the record on, re-issue the ranged read
/// from the current cursor, give up for good, or stop cleanly.
#[derive(Clone, Copy, Debug, PartialEq, Eq, Structural)]
pub enum ReadAction {
    Deliver,
    Retry,
    Abort,
    Finished,
}

/// The part of the reader's state that the retry policy reads and writes:
/// the cursor's start offset and the consecutive-failure count.
pub struct ReaderModel {
    pub start: int,
    pub failures: int,
}

/// One transition of the retry policy's state.
pub open spec fn model_step(m: ReaderModel, ev: ReadEvent) -> ReaderModel {
    match ev {
        ReadEvent::Record => ReaderModel { start: m.start + 1, failures: 0 },
        ReadEvent::Failure => ReaderModel { start: m.start, failures: m.failures + 1 },
        ReadEvent::End => m,
    }
}

/// The decision the retry policy takes on one event.
pub open spec fn model_action(m: ReaderModel, ev: ReadEvent) -> ReadAction {
    match ev {
        ReadEvent::Record => ReadAction::Deliver,
        ReadEvent::Failure => if m.failures + 1 >= FAILURE_LIMIT {
            ReadAction::Abort
        } else {
            ReadAction::Retry
        },
        ReadEvent::End => ReadAction::Finished,
    }
}

/// The state after a whole sequence of events.
pub open spec fn run_model(m: ReaderModel, evs: Seq<ReadEvent>) -> ReaderModel
    decreases evs.len(),
{
    if evs.len() == 0 {
        m
    } else {
        run_model(model_step(m, evs[0]), evs.drop_first())
    }
}

pub struct RangedRetryingReader {
    cursor: StreamCursor,
    failure_count: usize,
    chunk_size: usize,
    first_index: Ghost<int>,
    handed_out: Ghost<Seq<int>>,
}

impl RangedRetryingReader {
    /// The record offsets delivered so far, in delivery order.
    pub closed spec fn delivered(self) -> Seq<int> {
        self.handed_out@
    }

    /// The record offset the reader was opened at.
    pub closed spec fn origin(self) -> int {
        self.first_index@
    }

    /// The next record offset to deliver.
    pub closed spec fn start(self) -> int {
        self.cursor.start_index as int
    }

    /// One past the last record wanted, if the range is bounded.
    pub closed spec fn bound(self) -> Option<usize> {
        self.cursor.end_index
    }

    /// The consecutive-failure count.
    pub closed spec fn failures(self) -> int {
        self.failure_count as int
    }

    /// The fixed record size, in bytes.
    pub closed spec fn size(self) -> int {
        self.chunk_size as int
    }

    /// The policy state of this reader.
    pub open spec fn model(self) -> ReaderModel {
        ReaderModel { start: self.start(), failures: self.failures() }
    }

    /// The reader's invariant: the cursor is ordered, the failure count is
    /// within the budget, and the delivery log holds exactly the
    /// consecutive record offsets from the origin up to the cursor.
    pub closed spec fn wf(self) -> bool {
        &&& self.chunk_size > 0
        &&& self.cursor.wf()
        &&& self.failure_count <= FAILURE_LIMIT
        &&& self.first_index@ <= self.start()
        &&& self.delivered().len() == self.start() - self.origin()
        &&& forall|i: int|
            0 <= i < self.delivered().len() ==> #[trigger] self.delivered()[i] == self.origin()
                + i
    }

    /// The reader has not yet failed for good.
    pub open spec fn live(self) -> bool {
        self.failures() < FAILURE_LIMIT
    }

    /// There is room to deliver one more record: a bounded range is not
    /// exhausted, and the offset itself cannot overflow.
    pub open spec fn can_advance(self) -> bool {
        &&& self.start() < usize::MAX
        &&& match self.bound() {
            Some(e) => self.start() < e,
            None => true,
        }
    }

    /// Open a reader at `start_index`, bounded by `end_index` if given,
    /// over records of `chunk_size` bytes.
    pub fn new(start_index: usize, end_index: Option<usize>, chunk_size: usize) -> (r: Self)
        requires
            chunk_size > 0,
            end_index matches Some(e) ==> start_index <= e,
        ensures
            r.wf(),
            r.live(),
            r.origin() == start_index,
            r.start() == start_index,
            r.bound() == end_index,
            r.size() == chunk_size,
            r.failures() == 0,
            r.delivered() == Seq::<int>::empty(),
    {
        RangedRetryingReader {
            cursor: StreamCursor { start_index, end_index },
            failure_count: 0,
            chunk_size,
            first_index: Ghost(start_index as int),
            handed_out: Ghost(Seq::empty()),
        }
    }

    /// Take the next event of the underlying stream and decide what to do
    /// with it. A record resets the failure counter and advances the
    /// cursor; a failure leaves the cursor exactly where delivery stopped,
    /// so a retry re-issues the read at the first not-yet-delivered record.
    pub fn on_event(&mut self, ev: ReadEvent) -> (act: ReadAction)
        requires
            old(self).wf(),
            old(self).live(),
            ev is Record ==> old(self).can_advance(),
        ensures
            final(self).wf(),
            final(self).size() == old(self).size(),
            final(self).bound() == old(self).bound(),
            final(self).origin() == old(self).origin(),
            final(self).model() == model_step(old(self).model(), ev),
            act == model_action(old(self).model(), ev),
            ev is Record ==> final(self).delivered() == old(self).delivered().push(
                old(self).start(),
            ),
            !(ev is Record) ==> final(self).delivered() == old(self).delivered(),
    {
        match ev {
            ReadEvent::Record => {
                proof {
                    self.handed_out@ = self.handed_out@.push(self.start());
                }
                self.cursor.start_index = self.cursor.start_index + 1;
                self.failure_count = 0;
                ReadAction::Deliver
            },
            ReadEvent::Failure => {
                self.failure_count = self.failure_count + 1;
                if self.failure_count >= FAILURE_LIMIT {
                    ReadAction::Abort
                } else {
                    ReadAction::Retry
                }
            },
            ReadEvent::End => ReadAction::Finished,
        }
    }

    /// The byte range a fresh ranged read must request now: the first byte
    /// of the first not-yet-delivered record, and — for a bounded range —
    /// the last byte of the last record wanted, inclusive.
    pub fn byte_range(&self) -> (r: (usize, Option<usize>))
        requires
            self.wf(),
            self.start() * self.size() <= usize::MAX,
            self.bound() matches Some(e) ==> 1 <= e * self.size() <= usize::MAX,
        ensures
            r.0 == self.start() * self.size(),
            self.bound() matches Some(e) ==> r.1 == Some((e * self.size() - 1) as usize),
            self.bound() is None ==> r.1 == None::<usize>,
    {
        let start_pos = self.cursor.start_index * self.chunk_size;
        match self.cursor.end_index {
            Some(e) => (start_pos, Some(e * self.chunk_size - 1)),
            None => (start_pos, None),
        }
    }

    /// How many records are still wanted, when the range is bounded: the
    /// record-count budget of the chunker driving the fresh read.
    pub fn remaining_count(&self) -> (r: Option<usize>)
        requires
            self.wf(),
        ensures
            self.bound() matches Some(e) ==> r == Some((e - self.start()) as usize),
            self.bound() is None ==> r is None,
    {
        match self.cursor.end_index {
            Some(e) => Some(e - self.cursor.start_index),
            None => None,
        }
    }

    /// The next record offset to deliver, as the driver sees it.
    pub fn position(&self) -> (r: usize)
        ensures
            r == self.start(),
    {
        self.cursor.start_index
    }

    /// The consecutive-failure count, as the driver sees it.
    pub fn failure_run_len(&self) -> (r: usize)
        ensures
            r == self.failures(),
    {
        self.failure_count
    }

    /// Whatever mixture of deliveries, failures and
    /// retries a reader went through, the records it delivered are exactly
    /// the consecutive run of offsets starting at its origin: each exactly
    /// once, in ascending order, none skipped. After any retry, delivery
    /// resumes at precisely the first not-yet-delivered record.
    pub proof fn lemma_no_duplicates_no_gaps(self)
        requires
            self.wf(),
        ensures
            self.delivered().len() == self.start() - self.origin(),
            forall|i: int|
                0 <= i < self.delivered().len() ==> #[trigger] self.delivered()[i] == self.origin()
                    + i,
            forall|i: int, j: int|
                0 <= i < j < self.delivered().len() ==> self.delivered()[i]
                    != self.delivered()[j],
    {
    }
}

/// A run of failures adds up: it never moves the cursor, and each failure
/// raises the consecutive-failure count by one.
pub proof fn lemma_failure_run(m: ReaderModel, evs: Seq<ReadEvent>)
    requires
        forall|i: int| 0 <= i < evs.len() ==> evs[i] is Failure,
    ensures
        run_model(m, evs).start == m.start,
        run_model(m, evs).failures == m.failures + evs.len(),
    decreases evs.len(),
{
    if evs.len() > 0 {
        let m1 = model_step(m, evs[0]);
        assert forall|i: int| 0 <= i < evs.drop_first().len() implies evs.drop_first()[i]
            is Failure by {
            assert(evs.drop_first()[i] == evs[i + 1]);
        }
        lemma_failure_run(m1, evs.drop_first());
    }
}

/// A stream that fails on every attempt is
/// retried on each of its first `FAILURE_LIMIT - 1` failures and aborted on
/// failure number `FAILURE_LIMIT`, the cursor never having advanced: not one
/// record was delivered, and not one record is re-read past the budget.
pub proof fn lemma_permanent_failure(m: ReaderModel, evs: Seq<ReadEvent>, k: int)
    requires
        m.failures == 0,
        forall|i: int| 0 <= i < evs.len() ==> evs[i] is Failure,
        0 <= k < evs.len(),
        k < FAILURE_LIMIT,
    ensures
        run_model(m, evs.take(k)).start == m.start,
        run_model(m, evs.take(k)).failures == k,
        k < FAILURE_LIMIT - 1 ==> model_action(run_model(m, evs.take(k)), evs[k])
            == ReadAction::Retry,
        k == FAILURE_LIMIT - 1 ==> model_action(run_model(m, evs.take(k)), evs[k])
            == ReadAction::Abort,
{
    assert forall|i: int| 0 <= i < evs.take(k).len() implies evs.take(k)[i] is Failure by {
        assert(evs.take(k)[i] == evs[i]);
    }
    lemma_failure_run(m, evs.take(k));
}

} // verus!
