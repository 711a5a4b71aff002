//! The event bus: one append-only log per event type, read through
//! independent cursors.
//!
//! Each reader sees every event sent after it was registered exactly once,
//! in the order of sending. Entries that every reader has passed can be
//! discarded; readers cannot tell.

use vstd::prelude::*;

verus! {

/// Names one reader of a log.
#[derive(Clone, Copy, Debug, PartialEq, Eq, Structural)]
pub struct ReaderId {
    pub index: usize,
}

/// The model of a log: every event ever sent, oldest first, and for each
/// reader the number of events it has passed.
pub struct EventLog<E> {
    pub history: Seq<E>,
    pub positions: Seq<nat>,
}

impl<E> EventLog<E> {
    /// Whether `r` is a registered reader.
    pub open spec fn has_reader(self, r: ReaderId) -> bool {
        r.index < self.positions.len()
    }

    /// The events that `r` has not seen yet, oldest first. A reader that
    /// was never registered has none.
    pub open spec fn pending(self, r: ReaderId) -> Seq<E> {
        if self.has_reader(r) {
            self.history.skip(self.positions[r.index as int] as int)
        } else {
            Seq::empty()
        }
    }

    /// No reader is ahead of the log.
    pub open spec fn consistent(self) -> bool {
        forall|i: int| 0 <= i < self.positions.len() ==> #[trigger] self.positions[i] <= self.history.len()
    }

    /// The log after `e` is sent.
    pub open spec fn sent(self, e: E) -> EventLog<E> {
        EventLog { history: self.history.push(e), positions: self.positions }
    }

    /// The log after a reader is registered: it starts at the end, so it
    /// sees only what is sent from now on.
    pub open spec fn joined(self) -> EventLog<E> {
        EventLog { history: self.history, positions: self.positions.push(self.history.len()) }
    }

    /// The log after `r` has read all that was pending.
    pub open spec fn drained(self, r: ReaderId) -> EventLog<E> {
        if self.has_reader(r) {
            EventLog {
                history: self.history,
                positions: self.positions.update(r.index as int, self.history.len()),
            }
        } else {
            self
        }
    }
}

impl<E> EventLog<E> {
    /// A reader that has read the log has nothing pending: no event is
    /// handed to it a second time.
    pub proof fn lemma_nothing_is_replayed(self, r: ReaderId)
        ensures
            self.drained(r).pending(r) == Seq::<E>::empty(),
    {
        assert(self.drained(r).pending(r) =~= Seq::<E>::empty());
    }

    /// Readers are independent: what one reads changes nothing for
    /// another.
    pub proof fn lemma_readers_are_independent(self, r: ReaderId, other: ReaderId)
        requires
            r != other,
        ensures
            self.drained(r).has_reader(other) == self.has_reader(other),
            self.drained(r).pending(other) == self.pending(other),
    {
    }

    /// An event that is sent reaches every registered reader, after all
    /// that the reader had pending.
    pub proof fn lemma_sent_reaches_every_reader(self, e: E, r: ReaderId)
        requires
            self.consistent(),
            self.has_reader(r),
        ensures
            self.sent(e).pending(r) == self.pending(r).push(e),
    {
        assert(self.positions[r.index as int] <= self.history.len());
        assert(self.sent(e).pending(r) =~= self.pending(r).push(e));
    }

    /// A reader that joins sees nothing of what was sent before.
    pub proof fn lemma_joined_reader_starts_empty(self)
        requires
            self.positions.len() <= usize::MAX,
        ensures
            self.joined().pending(ReaderId { index: self.positions.len() as usize })
                == Seq::<E>::empty(),
    {
        let r = ReaderId { index: self.positions.len() as usize };
        assert(self.joined().pending(r) =~= Seq::<E>::empty());
    }
}

/// The log of one event type.
pub struct Events<E> {
    /// The entries still held, oldest first.
    entries: Vec<E>,
    /// For each reader the number of held entries it has passed.
    cursors: Vec<usize>,
    /// The entries that were discarded.
    discarded: Ghost<Seq<E>>,
}

impl<E> View for Events<E> {
    type V = EventLog<E>;

    closed spec fn view(&self) -> EventLog<E> {
        EventLog {
            history: self.discarded@ + self.entries@,
            positions: Seq::new(
                self.cursors@.len(),
                |i: int| (self.discarded@.len() + self.cursors@[i]) as nat,
            ),
        }
    }
}

impl<E: Copy> Events<E> {
    /// The internal invariant: every cursor lies within the held entries.
    pub closed spec fn wf(&self) -> bool {
        forall|i: int| 0 <= i < self.cursors@.len() ==> #[trigger] self.cursors@[i] <= self.entries@.len()
    }

    /// Number of entries held in memory.
    pub closed spec fn held(&self) -> nat {
        self.entries@.len()
    }

    /// A well-formed log has no reader ahead of it.
    pub proof fn lemma_consistent(&self)
        requires
            self.wf(),
        ensures
            self@.consistent(),
    {
    }

    /// The empty log, without readers.
    pub fn new() -> (ev: Events<E>)
        ensures
            ev.wf(),
            ev@.history == Seq::<E>::empty(),
            ev@.positions == Seq::<nat>::empty(),
    {
        let ev = Events { entries: Vec::new(), cursors: Vec::new(), discarded: Ghost(Seq::empty()) };
        assert(ev@.history =~= Seq::<E>::empty());
        assert(ev@.positions =~= Seq::<nat>::empty());
        ev
    }

    /// Appends `e` to the log.
    pub fn send(&mut self, e: E)
        requires
            old(self).wf(),
        ensures
            final(self).wf(),
            final(self)@ == old(self)@.sent(e),
    {
        self.entries.push(e);
        assert(self@.history =~= old(self)@.history.push(e));
        assert(self@.positions =~= old(self)@.positions);
    }

    /// Registers a reader.
    pub fn add_reader(&mut self) -> (r: ReaderId)
        requires
            old(self).wf(),
        ensures
            final(self).wf(),
            r.index == old(self)@.positions.len(),
            final(self)@ == old(self)@.joined(),
    {
        let r = ReaderId { index: self.cursors.len() };
        self.cursors.push(self.entries.len());
        assert(self@.positions =~= old(self)@.positions.push(old(self)@.history.len()));
        r
    }

    /// Number of registered readers.
    pub fn reader_count(&self) -> (n: usize)
        ensures
            n == self@.positions.len(),
    {
        self.cursors.len()
    }

    /// Number of events that `r` has not seen yet.
    pub fn pending_count(&self, r: ReaderId) -> (n: usize)
        requires
            self.wf(),
        ensures
            n == self@.pending(r).len(),
    {
        if r.index < self.cursors.len() {
            self.entries.len() - self.cursors[r.index]
        } else {
            0
        }
    }

    /// Hands `r` every event sent since it last read, oldest first, and
    /// moves its cursor to the end of the log. A reader that was never
    /// registered gets nothing.
    pub fn drain(&mut self, r: ReaderId) -> (out: Vec<E>)
        requires
            old(self).wf(),
        ensures
            final(self).wf(),
            out@ == old(self)@.pending(r),
            final(self)@ == old(self)@.drained(r),
    {
        let mut out: Vec<E> = Vec::new();
        if r.index >= self.cursors.len() {
            return out;
        }
        let start: usize = self.cursors[r.index];
        let end: usize = self.entries.len();
        let mut i: usize = start;
        while i < end
            invariant
                start <= i <= end,
                end == self.entries@.len(),
                out@ == self.entries@.subrange(start as int, i as int),
            decreases end - i,
        {
            out.push(self.entries[i]);
            assert(self.entries@.subrange(start as int, i + 1) =~= self.entries@.subrange(
                start as int,
                i as int,
            ).push(self.entries@[i as int]));
            i += 1;
        }
        self.cursors.set(r.index, end);
        assert(out@ =~= old(self)@.pending(r));
        assert(self@.positions =~= old(self)@.positions.update(
            r.index as int,
            old(self)@.history.len(),
        ));
        out
    }

    /// Number of entries held in memory; compaction lowers it.
    pub fn retained(&self) -> (n: usize)
        ensures
            n == self.held(),
    {
        self.entries.len()
    }

    /// Discards the entries that every reader has passed (all entries, if
    /// there is no reader). What the readers will see does not change.
    pub fn compact(&mut self)
        requires
            old(self).wf(),
        ensures
            final(self).wf(),
            final(self)@ == old(self)@,
            final(self).held() <= old(self).held(),
            forall|i: int|
                0 <= i < final(self)@.positions.len() ==> final(self).held() >= final(self)@.history.len() - #[trigger] final(self)@.positions[i],
            final(self)@.positions.len() == 0 ==> final(self).held() == 0,
            final(self)@.positions.len() > 0 ==> exists|i: int|
                0 <= i < final(self)@.positions.len() && final(self).held() == final(self)@.history.len() - #[trigger] final(self)@.positions[i],
    {
        let total: usize = self.entries.len();
        let readers: usize = self.cursors.len();
        // The number of entries that every reader has passed.
        let mut low: usize = total;
        let ghost mut at: int = -1;
        let mut k: usize = 0;
        while k < readers
            invariant
                k <= readers,
                readers == self.cursors@.len(),
                total == self.entries@.len(),
                self.wf(),
                low <= total,
                forall|i: int| 0 <= i < k ==> low <= #[trigger] self.cursors@[i],
                k == 0 ==> low == total && at == -1,
                k > 0 ==> 0 <= at < k && low == self.cursors@[at],
            decreases readers - k,
        {
            if self.cursors[k] < low || k == 0 {
                low = self.cursors[k];
                proof {
                    at = k as int;
                }
            }
            k += 1;
        }
        let mut kept: Vec<E> = Vec::new();
        let mut i: usize = low;
        while i < total
            invariant
                low <= i <= total,
                total == self.entries@.len(),
                kept@ == self.entries@.subrange(low as int, i as int),
            decreases total - i,
        {
            kept.push(self.entries[i]);
            assert(self.entries@.subrange(low as int, i + 1) =~= self.entries@.subrange(
                low as int,
                i as int,
            ).push(self.entries@[i as int]));
            i += 1;
        }
        let mut moved: Vec<usize> = Vec::new();
        let mut j: usize = 0;
        while j < readers
            invariant
                j <= readers,
                readers == self.cursors@.len(),
                moved@.len() == j,
                forall|i: int| 0 <= i < readers ==> low <= #[trigger] self.cursors@[i],
                forall|i: int| 0 <= i < j ==> #[trigger] moved@[i] == self.cursors@[i] - low,
            decreases readers - j,
        {
            moved.push(self.cursors[j] - low);
            j += 1;
        }
        let ghost gone = self.discarded@ + self.entries@.subrange(0, low as int);
        self.entries = kept;
        self.cursors = moved;
        self.discarded = Ghost(gone);
        assert(self@.history =~= old(self)@.history);
        assert(self@.positions =~= old(self)@.positions);
        proof {
            if readers > 0 {
                assert(self.held() == self@.history.len() - self@.positions[at]);
            }
        }
    }
}

/// The pointer moved to `(x, y)`, in window coordinates.
#[derive(Clone, Copy, Debug, PartialEq, Eq, Structural)]
pub struct CursorMoved {
    pub x: i32,
    pub y: i32,
}

/// The player lost.
#[derive(Clone, Copy, Debug, PartialEq, Eq, Structural)]
pub struct GameOverEvent;

} // verus!
