//! Frame-timing instrumentation: a ring of per-frame records, each a list of labelled
//! marks with the time that had passed since the frame began.

use vstd::prelude::*;

verus! {

/// The standard library's monotonic clock reading, opaque to the verifier.
#[verifier::external_type_specification]
#[verifier::external_body]
pub struct ExInstant(std::time::Instant);

/// Reads the clock with `std::time::Instant::now`. Nothing is claimed of the reading.
#[verifier::external_body]
fn clock_start() -> (origin: std::time::Instant) {
    std::time::Instant::now()
}

/// The time that has passed since `origin`, by `std::time::Instant::elapsed`. Nothing
/// is claimed of it: two readings may even come out equal.
#[verifier::external_body]
fn clock_elapsed(origin: &std::time::Instant) -> (elapsed: std::time::Duration) {
    origin.elapsed()
}

/// A span of time in nanoseconds, by `std::time::Duration::as_nanos`. Nothing is
/// claimed of the number.
#[verifier::external_body]
fn duration_nanos(span: &std::time::Duration) -> (nanos: u128) {
    span.as_nanos()
}

/// A labelled point in time within a frame.
#[derive(Clone, Copy, Debug, PartialEq, Eq)]
pub struct Mark {
    pub label: &'static str,
    /// Nanoseconds between the frame's begin and the mark.
    pub elapsed: u128,
}

/// The time from `start` to `now`; zero where `now` lies before `start`.
pub open spec fn elapsed_since(start: u128, now: u128) -> u128 {
    if now >= start {
        (now - start) as u128
    } else {
        0
    }
}

/// The last `k` elements of `s`, or all of `s` where it has no more than `k`.
pub open spec fn keep_recent<T>(s: Seq<T>, k: nat) -> Seq<T> {
    if s.len() <= k {
        s
    } else {
        s.subrange(s.len() - k, s.len() as int)
    }
}

/// `keep_recent` keeps as many elements as fit, and they are the last ones, in order.
pub proof fn lemma_keep_recent<T>(s: Seq<T>, k: nat)
    ensures
        keep_recent(s, k).len() == if s.len() <= k { s.len() } else { k },
        forall|i: int|
            0 <= i < keep_recent(s, k).len() ==> keep_recent(s, k)[i] == s[s.len() - keep_recent(s, k).len()
                + i],
{
}

/// The tracker as a plain value.
pub struct PerfModel {
    /// How many records the history holds at most.
    pub capacity: nat,
    /// The records, oldest first. The last one is the record of the current frame.
    pub records: Seq<Seq<Mark>>,
    /// When the current frame began.
    pub frame_start: u128,
}

impl PerfModel {
    /// An empty history of the given capacity.
    pub open spec fn fresh(capacity: nat) -> PerfModel {
        PerfModel { capacity, records: Seq::empty(), frame_start: 0 }
    }

    /// The history never holds more records than its capacity.
    pub open spec fn wf(self) -> bool {
        self.records.len() <= self.capacity
    }

    /// Whether a record is open, so that marks have a place to go.
    pub open spec fn is_recording(self) -> bool {
        self.records.len() > 0
    }

    /// A new, empty record is opened at `now`; the oldest record leaves where the
    /// history is full.
    pub open spec fn begin_at(self, now: u128) -> PerfModel {
        PerfModel {
            records: keep_recent(self.records.push(Seq::empty()), self.capacity),
            frame_start: now,
            ..self
        }
    }

    /// A mark is added to the end of the current record. Without an open record
    /// nothing changes.
    pub open spec fn mark_at(self, label: &'static str, now: u128) -> PerfModel {
        if self.records.len() == 0 {
            self
        } else {
            PerfModel {
                records: self.records.update(
                    self.records.len() - 1,
                    self.records.last().push(
                        Mark { label, elapsed: elapsed_since(self.frame_start, now) },
                    ),
                ),
                ..self
            }
        }
    }

    /// The capacity becomes `length`; only the most recent records that fit stay.
    pub open spec fn set_history_length(self, length: nat) -> PerfModel {
        PerfModel { capacity: length, records: keep_recent(self.records, length), ..self }
    }

    /// The marks `(labels[0], times[0])`, `(labels[1], times[1])`, ... are added one
    /// after the other.
    pub open spec fn marks_at(self, labels: Seq<&'static str>, times: Seq<u128>) -> PerfModel
        decreases labels.len(),
    {
        if labels.len() == 0 {
            self
        } else {
            self.marks_at(labels.drop_last(), times.drop_last()).mark_at(labels.last(), times.last())
        }
    }
}

/// After a begin and then any number of marks, the current record holds exactly those
/// marks, in the order of the calls, each with the time since the begin; the records of
/// earlier frames are as the begin left them.
pub proof fn lemma_marks_are_kept_in_call_order(
    tracker: PerfModel,
    start: u128,
    labels: Seq<&'static str>,
    times: Seq<u128>,
)
    requires
        tracker.wf(),
        tracker.capacity > 0,
        labels.len() == times.len(),
    ensures
        ({
            let begun = tracker.begin_at(start);
            let marked = begun.marks_at(labels, times);
            &&& marked.wf()
            &&& marked.capacity == tracker.capacity
            &&& marked.frame_start == start
            &&& marked.records.len() == begun.records.len()
            &&& marked.records.len() > 0
            &&& marked.records.drop_last() == begun.records.drop_last()
            &&& marked.records.last().len() == labels.len()
            &&& forall|i: int|
                0 <= i < labels.len() ==> #[trigger] marked.records.last()[i] == (Mark {
                    label: labels[i],
                    elapsed: elapsed_since(start, times[i]),
                })
        }),
    decreases labels.len(),
{
    let begun = tracker.begin_at(start);
    if labels.len() == 0 {
        assert(begun.records.last() == Seq::<Mark>::empty());
    } else {
        lemma_marks_are_kept_in_call_order(tracker, start, labels.drop_last(), times.drop_last());
        let before = begun.marks_at(labels.drop_last(), times.drop_last());
        let marked = begun.marks_at(labels, times);
        assert(marked == before.mark_at(labels.last(), times.last()));
        assert(marked.records.drop_last() =~= before.records.drop_last());
    }
}

/// The slot that holds the `i`-th record, counted from the oldest, in a ring of `len`
/// slots whose oldest record is in slot `head`.
pub open spec fn ring_index(head: int, len: int, i: int) -> int {
    if head + i < len {
        head + i
    } else {
        head + i - len
    }
}

/// Records what a frame spent its time on, for the most recent frames.
#[derive(Debug)]
pub struct PerfTracker {
    /// The records, as a ring once there are `capacity` of them.
    slots: Vec<Vec<Mark>>,
    /// The slot of the oldest record.
    head: usize,
    capacity: usize,
    frame_start: u128,
    origin: std::time::Instant,
}

impl View for PerfTracker {
    type V = PerfModel;

    closed spec fn view(&self) -> PerfModel {
        PerfModel {
            capacity: self.capacity as nat,
            records: Seq::new(
                self.slots@.len(),
                |i: int| self.slots@[ring_index(self.head as int, self.slots@.len() as int, i)]@,
            ),
            frame_start: self.frame_start,
        }
    }
}

/// A copy of `marks`.
fn copy_marks(marks: &Vec<Mark>) -> (copy: Vec<Mark>)
    ensures
        copy@ == marks@,
{
    let mut copy: Vec<Mark> = Vec::new();
    let mut i: usize = 0;
    while i < marks.len()
        invariant
            i <= marks.len(),
            copy@ == marks@.subrange(0, i as int),
        decreases marks.len() - i,
    {
        copy.push(marks[i]);
        i += 1;
        assert(copy@ == marks@.subrange(0, i as int));
    }
    assert(marks@.subrange(0, i as int) == marks@);
    copy
}

impl PerfTracker {
    /// The ring is no longer than the capacity, and it starts to turn only when full.
    pub closed spec fn wf(&self) -> bool {
        &&& self.slots@.len() <= self.capacity
        &&& self.head == 0 || self.head < self.slots@.len()
        &&& self.slots@.len() < self.capacity ==> self.head == 0
    }

    /// An empty history that keeps the records of at most `history_length` frames.
    pub fn new(history_length: usize) -> (tracker: PerfTracker)
        ensures
            tracker.wf(),
            tracker@ == PerfModel::fresh(history_length as nat),
    {
        let tracker = PerfTracker {
            slots: Vec::new(),
            head: 0,
            capacity: history_length,
            frame_start: 0,
            origin: clock_start(),
        };
        assert(tracker@.records =~= Seq::<Seq<Mark>>::empty());
        tracker
    }

    /// The time on the tracker's clock.
    pub(crate) fn read_clock(&self) -> (now: u128) {
        let elapsed = clock_elapsed(&self.origin);
        duration_nanos(&elapsed)
    }

    /// How many records the history holds at most.
    pub fn history_length(&self) -> (length: usize)
        ensures
            length == self@.capacity,
    {
        self.capacity
    }

    /// How many records the history holds.
    pub fn record_count(&self) -> (count: usize)
        ensures
            count == self@.records.len(),
    {
        self.slots.len()
    }

    /// The slot of the `i`-th record, counted from the oldest.
    fn position(&self, i: usize) -> (slot: usize)
        requires
            self.wf(),
            i < self.slots@.len(),
        ensures
            slot == ring_index(self.head as int, self.slots@.len() as int, i as int),
            slot < self.slots@.len(),
    {
        let room: usize = self.slots.len() - self.head;
        if i < room {
            self.head + i
        } else {
            i - room
        }
    }

    /// The marks of the `i`-th record, counted from the oldest; `None` where the
    /// history has no such record.
    pub fn record(&self, i: usize) -> (marks: Option<&Vec<Mark>>)
        requires
            self.wf(),
        ensures
            match marks {
                Some(marks) => i < self@.records.len() && marks@ == self@.records[i as int],
                None => i >= self@.records.len(),
            },
    {
        if i < self.slots.len() {
            let slot = self.position(i);
            Some(&self.slots[slot])
        } else {
            None
        }
    }

    /// The marks of the current frame; `None` where no record is open.
    pub fn current(&self) -> (marks: Option<&Vec<Mark>>)
        requires
            self.wf(),
        ensures
            match marks {
                Some(marks) => self@.is_recording() && marks@ == self@.records.last(),
                None => !self@.is_recording(),
            },
    {
        if self.slots.len() > 0 {
            let slot = self.position(self.slots.len() - 1);
            Some(&self.slots[slot])
        } else {
            None
        }
    }

    /// Opens the record of a frame that begins at `now` on the caller's clock.
    pub fn begin_at(&mut self, now: u128)
        requires
            old(self).wf(),
        ensures
            final(self).wf(),
            final(self)@.wf(),
            final(self)@ == old(self)@.begin_at(now),
    {
        let ghost before = self@;
        let len: usize = self.slots.len();
        self.frame_start = now;
        if self.capacity == 0 {
            assert(self@.records =~= keep_recent(before.records.push(Seq::empty()), 0));
        } else if len < self.capacity {
            self.slots.push(Vec::new());
            assert(self@.records =~= before.records.push(Seq::empty()));
        } else {
            self.slots.set(self.head, Vec::new());
            self.head = if self.head + 1 == len {
                0
            } else {
                self.head + 1
            };
            assert(self@.records =~= before.records.push(Seq::empty()).subrange(1, len + 1));
        }
    }

    /// Adds a mark to the current record, `now` being the time on the clock that
    /// `begin_at` was given the frame's begin on. Without an open record nothing changes.
    pub fn mark_at(&mut self, label: &'static str, now: u128)
        requires
            old(self).wf(),
        ensures
            final(self).wf(),
            final(self)@ == old(self)@.mark_at(label, now),
    {
        let ghost before = self@;
        let len: usize = self.slots.len();
        if len > 0 {
            let slot = self.position(len - 1);
            let elapsed: u128 = if now >= self.frame_start {
                now - self.frame_start
            } else {
                0
            };
            self.slots[slot].push(Mark { label, elapsed });
            assert(self@.records =~= before.records.update(
                len - 1,
                before.records.last().push(Mark { label, elapsed }),
            ));
        }
    }

    /// Opens the record of a new frame, which begins now on the tracker's own clock.
    /// The oldest record leaves where the history is full.
    pub fn begin(&mut self)
        requires
            old(self).wf(),
        ensures
            final(self).wf(),
            final(self)@.wf(),
            exists|now: u128| final(self)@ == old(self)@.begin_at(now),
            final(self)@.capacity == old(self)@.capacity,
            final(self)@.records == keep_recent(
                old(self)@.records.push(Seq::empty()),
                old(self)@.capacity,
            ),
    {
        let now = self.read_clock();
        self.begin_at(now);
    }

    /// Adds a mark with the time that has passed on the tracker's own clock. Without
    /// an open record nothing changes.
    pub fn mark(&mut self, label: &'static str)
        requires
            old(self).wf(),
        ensures
            final(self).wf(),
            exists|now: u128| final(self)@ == old(self)@.mark_at(label, now),
            final(self)@.capacity == old(self)@.capacity,
            final(self)@.records.len() == old(self)@.records.len(),
            old(self)@.is_recording() ==> {
                &&& final(self)@.records.drop_last() == old(self)@.records.drop_last()
                &&& final(self)@.records.last().drop_last() == old(self)@.records.last()
                &&& final(self)@.records.last().last().label == label
            },
    {
        let now = self.read_clock();
        self.mark_at(label, now);
        proof {
            if old(self)@.is_recording() {
                assert(self@.records.drop_last() =~= old(self)@.records.drop_last());
                assert(self@.records.last().drop_last() =~= old(self)@.records.last());
            }
        }
    }

    /// Changes how many records the history holds at most. The most recent records
    /// stay, as many as fit; older ones leave.
    pub fn set_history_length(&mut self, history_length: usize)
        requires
            old(self).wf(),
        ensures
            final(self).wf(),
            final(self)@.wf(),
            final(self)@ == old(self)@.set_history_length(history_length as nat),
    {
        let ghost before = self@;
        let len: usize = self.slots.len();
        let keep: usize = if len < history_length {
            len
        } else {
            history_length
        };
        let skip: usize = len - keep;
        let mut kept: Vec<Vec<Mark>> = Vec::new();
        let mut j: usize = 0;
        while j < keep
            invariant
                j <= keep,
                keep + skip == len,
                len == self.slots@.len(),
                self.wf(),
                before == self@,
                kept@.len() == j,
                forall|a: int| 0 <= a < j ==> (#[trigger] kept@[a])@ == before.records[skip + a],
            decreases keep - j,
        {
            let slot = self.position(skip + j);
            kept.push(copy_marks(&self.slots[slot]));
            j += 1;
        }
        self.slots = kept;
        self.head = 0;
        self.capacity = history_length;
        assert(self@.records =~= keep_recent(before.records, history_length as nat));
    }
}

} // verus!
