//! An append-only log of input events with independent read cursors.
//!
//! Several systems consume the same stream of key presses. Each owns a
//! `ReaderId`; reading through it yields exactly the events appended since
//! that reader last read (or since it registered), in arrival order, and
//! never moves any other reader's cursor.

use vstd::prelude::*;

verus! {

/// A discrete key-press event. Four movement keys, the mine action, the
/// reset action; everything else is a no-op for every system.
#[derive(Clone, Copy, Debug, PartialEq, Eq, Structural)]
pub enum Key {
    /// Move West.
    H,
    /// Move South.
    J,
    /// Move North.
    K,
    /// Move East.
    L,
    /// Mine the tile below the player.
    P,
    /// Reset terrain, player position and mining progress.
    R,
    /// Any key with no bound action.
    Other,
}

/// A consumer's handle into the event channel: the index of its private
/// cursor.
pub struct ReaderId {
    id: usize,
}

impl ReaderId {
    /// The cursor slot this handle addresses.
    pub closed spec fn spec_id(&self) -> int {
        self.id as int
    }
}

/// An ordered log of key events, plus one cursor per registered reader.
/// A cursor holds the index of the next event its reader has not yet seen.
pub struct EventChannel {
    events: Vec<Key>,
    cursors: Vec<usize>,
}

impl EventChannel {
    /// Every cursor points at or before the end of the log.
    pub closed spec fn wf(&self) -> bool {
        forall|j: int| 0 <= j < self.cursors@.len() ==> self.cursors@[j] <= self.events@.len()
    }

    /// The whole event log, oldest first.
    pub closed spec fn spec_events(&self) -> Seq<Key> {
        self.events@
    }

    /// How many readers have registered.
    pub closed spec fn spec_num_readers(&self) -> int {
        self.cursors@.len() as int
    }

    /// The cursor of reader `j`.
    pub closed spec fn spec_cursor(&self, j: int) -> int {
        self.cursors@[j] as int
    }

    /// True iff `r` is a handle this channel has issued.
    pub open spec fn spec_valid_reader(&self, r: &ReaderId) -> bool {
        0 <= r.spec_id() < self.spec_num_readers()
    }

    /// A fresh channel with no events and no readers.
    pub fn new() -> (c: EventChannel)
        ensures
            c.wf(),
            c.spec_events() == Seq::<Key>::empty(),
            c.spec_num_readers() == 0,
    {
        let c = EventChannel { events: Vec::new(), cursors: Vec::new() };
        proof {
            assert(c.spec_events() =~= Seq::<Key>::empty());
        }
        c
    }

    /// Register a new independent reader. It will observe every event
    /// appended from this moment on, and nothing earlier.
    pub fn register_reader(&mut self) -> (r: ReaderId)
        requires
            old(self).wf(),
        ensures
            final(self).wf(),
            final(self).spec_events() == old(self).spec_events(),
            final(self).spec_num_readers() == old(self).spec_num_readers() + 1,
            r.spec_id() == old(self).spec_num_readers(),
            final(self).spec_cursor(r.spec_id()) == old(self).spec_events().len(),
            forall|j: int|
                0 <= j < old(self).spec_num_readers()
                    ==> final(self).spec_cursor(j) == old(self).spec_cursor(j),
    {
        let id = self.cursors.len();
        let here = self.events.len();
        self.cursors.push(here);
        ReaderId { id }
    }

    /// Append one event to the log. No cursor moves.
    pub fn single_write(&mut self, e: Key)
        requires
            old(self).wf(),
        ensures
            final(self).wf(),
            final(self).spec_events() == old(self).spec_events().push(e),
            final(self).spec_num_readers() == old(self).spec_num_readers(),
            forall|j: int|
                0 <= j < old(self).spec_num_readers()
                    ==> final(self).spec_cursor(j) == old(self).spec_cursor(j),
    {
        self.events.push(e);
    }

    /// Drain reader `r`: return every event appended since `r` last read, in
    /// arrival order, and advance `r`'s cursor to the end of the log. The log
    /// itself and every other reader's cursor are untouched.
    pub fn read(&mut self, r: &ReaderId) -> (batch: Vec<Key>)
        requires
            old(self).wf(),
            old(self).spec_valid_reader(r),
        ensures
            final(self).wf(),
            final(self).spec_events() == old(self).spec_events(),
            final(self).spec_num_readers() == old(self).spec_num_readers(),
            batch@ == old(self).spec_events().subrange(
                old(self).spec_cursor(r.spec_id()),
                old(self).spec_events().len() as int,
            ),
            final(self).spec_cursor(r.spec_id()) == final(self).spec_events().len(),
            forall|j: int|
                0 <= j < old(self).spec_num_readers() && j != r.spec_id()
                    ==> final(self).spec_cursor(j) == old(self).spec_cursor(j),
    {
        let start = self.cursors[r.id];
        let end = self.events.len();
        let mut batch: Vec<Key> = Vec::new();
        let mut k = start;
        while k < end
            invariant
                start <= k <= end,
                end == self.events@.len(),
                start == old(self).spec_cursor(r.spec_id()),
                self == old(self),
                batch@ == self.events@.subrange(start as int, k as int),
            decreases end - k,
        {
            let e = self.events[k];
            batch.push(e);
            proof {
                assert(batch@ =~= self.events@.subrange(start as int, k + 1 as int));
            }
            k = k + 1;
        }
        self.cursors[r.id] = end;
        proof {
            assert(batch@ =~= old(self).spec_events().subrange(
                start as int,
                old(self).spec_events().len() as int,
            ));
        }
        batch
    }
}

/// The events reader `r` has not yet seen: the log from `r`'s cursor to its
/// end. This is exactly what the next `read` through `r` returns.
pub open spec fn spec_pending(c: EventChannel, r: &ReaderId) -> Seq<Key> {
    c.spec_events().subrange(c.spec_cursor(r.spec_id()), c.spec_events().len() as int)
}

/// Law: a reader misses nothing and sees nothing twice. Successive reads
/// return adjacent, disjoint segments of the log: if one read drains the log
/// from cursor `a` to `b` and the next from `b` to `c`, the two batches
/// concatenated are exactly the log's events from `a` to `c`, in order.
pub proof fn lemma_reads_cover_log(log: Seq<Key>, a: int, b: int, c: int)
    requires
        0 <= a <= b <= c <= log.len(),
    ensures
        log.subrange(a, c) == log.subrange(a, b) + log.subrange(b, c),
{
    assert(log.subrange(a, c) =~= log.subrange(a, b) + log.subrange(b, c));
}

} // verus!
