//! A bounded queue of push events for a host that polls.
use crate::text;
use std::collections::VecDeque;
use vstd::prelude::*;

verus! {

/// The most events that wait.
pub const CAPACITY: usize = 1024;

/// The events that wait, oldest first.
pub struct EventHub {
    queue: VecDeque<String>,
}

/// The queue after one more event: over the capacity the oldest is dropped.
pub open spec fn published(q: Seq<Seq<char>>, event: Seq<char>) -> Seq<Seq<char>> {
    if q.len() >= CAPACITY {
        q.skip(1).push(event)
    } else {
        q.push(event)
    }
}

/// The events that a drain of at most `max` hands out.
pub open spec fn drained(q: Seq<Seq<char>>, max: usize) -> Seq<Seq<char>> {
    if max < q.len() {
        q.take(max as int)
    } else {
        q
    }
}

/// The events that a drain of at most `max` leaves.
pub open spec fn left(q: Seq<Seq<char>>, max: usize) -> Seq<Seq<char>> {
    if max < q.len() {
        q.skip(max as int)
    } else {
        Seq::empty()
    }
}

/// Nothing is lost or reordered by a drain.
pub proof fn law_drain_splits(q: Seq<Seq<char>>, max: usize)
    ensures
        drained(q, max) + left(q, max) == q,
        drained(q, max).len() <= max,
{
    assert(drained(q, max) + left(q, max) =~= q);
}

/// An event that was published last is there, behind the newest of the others,
/// and the queue never outgrows its capacity.
pub proof fn law_publish_keeps_newest(q: Seq<Seq<char>>, event: Seq<char>)
    requires
        q.len() <= CAPACITY,
    ensures
        published(q, event).len() <= 1024,
        published(q, event).last() == event,
        q.len() < 1024 ==> published(q, event).drop_last() == q,
        q.len() == 1024 ==> published(q, event).drop_last() == q.skip(1),
{
    assert(q.push(event).drop_last() =~= q);
    assert(q.skip(1).push(event).drop_last() =~= q.skip(1));
}

/// What waiting for events comes to.
pub enum DrainStep {
    /// Wait up to this many milliseconds for a first event, then drain.
    Wait(u64),
    /// Drain now.
    Now,
}

impl EventHub {
    /// The waiting events, oldest first.
    pub closed spec fn events(&self) -> Seq<Seq<char>> {
        text::texts(self.queue@)
    }

    /// The queue is within its capacity.
    pub closed spec fn wf(&self) -> bool {
        self.queue@.len() <= CAPACITY
    }

    /// Never more events wait than the capacity.
    pub proof fn law_within_capacity(&self)
        requires
            self.wf(),
        ensures
            self.events().len() <= CAPACITY,
    {
    }

    /// A hub without events.
    pub fn new() -> (r: EventHub)
        ensures
            r.wf(),
            r.events() == Seq::<Seq<char>>::empty(),
    {
        let r = EventHub { queue: VecDeque::new() };
        proof {
            assert(r.events() =~= Seq::empty());
        }
        r
    }

    /// Publishes one event; over the capacity the oldest is dropped.
    pub fn publish(&mut self, event: String)
        requires
            old(self).wf(),
        ensures
            final(self).wf(),
            final(self).events() == published(old(self).events(), event@),
    {
        let ghost before = self.queue@;
        if self.queue.len() >= CAPACITY {
            let _ = self.queue.pop_front();
        }
        self.queue.push_back(event);
        proof {
            assert(self.events() =~= published(text::texts(before), event@));
        }
    }

    /// Hands out at most `max` events, oldest first.
    pub fn drain(&mut self, max: usize) -> (r: Vec<String>)
        requires
            old(self).wf(),
        ensures
            final(self).wf(),
            text::texts(r@) == drained(old(self).events(), max),
            final(self).events() == left(old(self).events(), max),
    {
        let ghost start = self.queue@;
        let n: usize = if max < self.queue.len() {
            max
        } else {
            self.queue.len()
        };
        let mut out: Vec<String> = Vec::new();
        let mut i: usize = 0;
        proof {
            assert(start.skip(0) =~= start);
            assert(start.take(0) =~= out@);
        }
        while i < n
            invariant
                i <= n <= start.len(),
                self.queue@ == start.skip(i as int),
                out@ == start.take(i as int),
            decreases n - i,
        {
            match self.queue.pop_front() {
                Some(e) => {
                    out.push(e);
                },
                None => {},
            }
            proof {
                assert(start.skip(i as int).skip(1) =~= start.skip(i + 1));
                assert(start.take(i as int).push(start[i as int]) =~= start.take(i + 1));
            }
            i = i + 1;
        }
        proof {
            assert(text::texts(out@) =~= drained(text::texts(start), max));
            assert(self.events() =~= left(text::texts(start), max));
        }
        out
    }

    /// Says whether a drain waits for a first event: only on an empty queue and
    /// only with a timeout.
    pub fn drain_wait(&self, timeout_ms: u64) -> (r: DrainStep)
        ensures
            r == (if self.events().len() == 0 && timeout_ms > 0 {
                DrainStep::Wait(timeout_ms)
            } else {
                DrainStep::Now
            }),
    {
        if self.queue.len() == 0 && timeout_ms > 0 {
            DrainStep::Wait(timeout_ms)
        } else {
            DrainStep::Now
        }
    }

    /// The number of waiting events.
    pub fn len(&self) -> (r: usize)
        ensures
            r == self.events().len(),
            self.wf() ==> r <= 1024,
    {
        self.queue.len()
    }
}

/// Until a thousand and twenty-four events wait nothing is dropped; from then on the
/// oldest goes for each that comes.
pub proof fn law_oldest_is_dropped(q: Seq<Seq<char>>, event: Seq<char>)
    ensures
        q.len() < 1024 ==> published(q, event).len() == q.len() + 1 && published(q, event).take(
            q.len() as int,
        ) == q,
        q.len() == 1024 ==> published(q, event).len() == 1024 && forall|i: int|
            0 <= i < 1023 ==> #[trigger] published(q, event)[i] == q[i + 1],
        published(q, event).last() == event,
{
    if q.len() < 1024 {
        assert(published(q, event).take(q.len() as int) =~= q);
    }
}

/// What is drained are the oldest events, as many as were asked for or as there are.
pub proof fn law_oldest_are_drained(q: Seq<Seq<char>>, max: usize, i: int)
    ensures
        drained(q, max).len() == if max < q.len() {
            max as int
        } else {
            q.len() as int
        },
        left(q, max).len() == q.len() - drained(q, max).len(),
        0 <= i < drained(q, max).len() ==> drained(q, max)[i] == q[i],
        0 <= i < left(q, max).len() ==> left(q, max)[i] == q[drained(q, max).len() + i],
{
}

} // verus!
