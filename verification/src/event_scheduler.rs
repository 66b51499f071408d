//! Scheduling events to fire in the future: each scheduled event waits on a one-shot timer and
//! fires on the frame its timer finishes.
use crate::timer::{fresh_timer, ticked, FrameTimer};
use std::collections::VecDeque;
use vstd::prelude::*;

verus! {

/// Events waiting to fire, each with its timer, in the order they were scheduled.
pub struct EventScheduler<E> {
    pub events: VecDeque<(E, FrameTimer)>,
}

/// The events still waiting after a frame of `delta` nanoseconds: those whose timer did not
/// finish, with their timers advanced, in order.
pub open spec fn still_waiting<E>(s: Seq<(E, FrameTimer)>, delta: u64) -> Seq<(E, FrameTimer)>
    decreases s.len(),
{
    if s.len() == 0 {
        Seq::empty()
    } else {
        let rest = still_waiting(s.drop_last(), delta);
        let t = ticked(s.last().1, delta);
        if t.finished {
            rest
        } else {
            rest.push((s.last().0, t))
        }
    }
}

/// The events that fire in a frame of `delta` nanoseconds: those whose timer finishes, in order.
pub open spec fn firing<E>(s: Seq<(E, FrameTimer)>, delta: u64) -> Seq<E>
    decreases s.len(),
{
    if s.len() == 0 {
        Seq::empty()
    } else {
        let rest = firing(s.drop_last(), delta);
        if ticked(s.last().1, delta).finished {
            rest.push(s.last().0)
        } else {
            rest
        }
    }
}

impl<E> EventScheduler<E> {
    /// A scheduler with no event waiting.
    pub fn new() -> (s: Self)
        ensures
            s.events@ == Seq::<(E, FrameTimer)>::empty(),
    {
        EventScheduler { events: VecDeque::new() }
    }

    /// Schedules `event` to fire once `duration` nanoseconds of frame time have passed.
    pub fn schedule(&mut self, event: E, duration: u64)
        ensures
            final(self).events@ == old(self).events@.push((event, fresh_timer(duration, false))),
    {
        self.events.push_back((event, FrameTimer::new(duration, false)));
    }

    /// Advances every waiting timer by a frame of `delta` nanoseconds and returns the events whose
    /// timer finished, in the order they were scheduled; the others keep waiting, in order.
    pub fn fire_scheduled_events(&mut self, delta: u64) -> (fired: Vec<E>)
        ensures
            fired@ == firing(old(self).events@, delta),
            final(self).events@ == still_waiting(old(self).events@, delta),
    {
        let ghost start = self.events@;
        let mut kept: VecDeque<(E, FrameTimer)> = VecDeque::new();
        let mut fired: Vec<E> = Vec::new();
        let ghost mut k: int = 0;
        loop
            invariant_except_break
                0 <= k <= start.len(),
                self.events@ == start.subrange(k, start.len() as int),
            invariant
                kept@ == still_waiting(start.subrange(0, k), delta),
                fired@ == firing(start.subrange(0, k), delta),
            ensures
                kept@ == still_waiting(start, delta),
                fired@ == firing(start, delta),
            decreases self.events@.len(),
        {
            match self.events.pop_front() {
                Some((event, timer)) => {
                    let mut timer = timer;
                    assert(start[k] == (event, timer));
                    timer.tick(delta);
                    proof {
                        let pre = start.subrange(0, k + 1);
                        assert(pre.drop_last() =~= start.subrange(0, k));
                        assert(pre.last() == start[k]);
                    }
                    if timer.finished() {
                        fired.push(event);
                    } else {
                        kept.push_back((event, timer));
                    }
                    proof {
                        k = k + 1;
                    }
                },
                None => {
                    assert(start.subrange(0, k) =~= start);
                    break ;
                },
            }
        }
        self.events = kept;
        fired
    }
}

impl<E> Default for EventScheduler<E> {
    fn default() -> (s: Self)
        ensures
            s.events@ == Seq::<(E, FrameTimer)>::empty(),
    {
        EventScheduler::new()
    }
}

/// Events scheduled one after another keep their order: what fires in one frame fires in the
/// order of scheduling, and every waiting event either fires or keeps waiting, never both.
pub proof fn lemma_every_event_fires_or_waits<E>(s: Seq<(E, FrameTimer)>, delta: u64)
    ensures
        firing(s, delta).len() + still_waiting(s, delta).len() == s.len(),
    decreases s.len(),
{
    if s.len() > 0 {
        lemma_every_event_fires_or_waits(s.drop_last(), delta);
    }
}

/// The events still waiting after one call of `fire_scheduled_events` per frame of `deltas`.
pub open spec fn waiting_after<E>(s: Seq<(E, FrameTimer)>, deltas: Seq<u64>) -> Seq<(E, FrameTimer)>
    decreases deltas.len(),
{
    if deltas.len() == 0 {
        s
    } else {
        still_waiting(waiting_after(s, deltas.drop_last()), deltas.last())
    }
}

/// The events that fire in frame `j` of `deltas`, starting from the waiting events `s`.
pub open spec fn fired_in<E>(s: Seq<(E, FrameTimer)>, deltas: Seq<u64>, j: int) -> Seq<E> {
    firing(waiting_after(s, deltas.take(j)), deltas[j])
}

/// The frame time of `deltas` in all.
pub open spec fn total_time(deltas: Seq<u64>) -> int
    decreases deltas.len(),
{
    if deltas.len() == 0 {
        0
    } else {
        total_time(deltas.drop_last()) + deltas.last()
    }
}

/// A one-shot timer of `duration` that has counted `elapsed` and not finished.
pub open spec fn pending_timer(duration: u64, elapsed: int) -> FrameTimer {
    FrameTimer { elapsed: elapsed as u64, ..fresh_timer(duration, false) }
}

/// An event scheduled behind the queue `q` stays last in the queue, counting the frame time,
/// until the frame time reaches its duration; from then on the queue is what it would have been
/// without it.
proof fn lemma_scheduled_entry_waits<E>(
    q: Seq<(E, FrameTimer)>,
    event: E,
    duration: u64,
    deltas: Seq<u64>,
    k: int,
)
    requires
        0 <= k <= deltas.len(),
    ensures
        (k == 0 || total_time(deltas.take(k)) < duration) ==> waiting_after(
            q.push((event, fresh_timer(duration, false))),
            deltas.take(k),
        ) == waiting_after(q, deltas.take(k)).push(
            (event, pending_timer(duration, total_time(deltas.take(k)))),
        ),
        !(k == 0 || total_time(deltas.take(k)) < duration) ==> waiting_after(
            q.push((event, fresh_timer(duration, false))),
            deltas.take(k),
        ) == waiting_after(q, deltas.take(k)),
    decreases k,
{
    let s = q.push((event, fresh_timer(duration, false)));
    if k == 0 {
        assert(deltas.take(0) =~= Seq::<u64>::empty());
        assert(pending_timer(duration, 0) == fresh_timer(duration, false));
    } else {
        lemma_scheduled_entry_waits(q, event, duration, deltas, k - 1);
        let pre = deltas.take(k - 1);
        let cur = deltas.take(k);
        assert(cur.drop_last() =~= pre);
        assert(cur.last() == deltas[k - 1]);
        let d = deltas[k - 1];
        let wq = waiting_after(q, pre);
        lemma_total_time_nonneg(pre);
        assert(total_time(cur) == total_time(pre) + d);
        assert(waiting_after(s, cur) == still_waiting(waiting_after(s, pre), d));
        assert(waiting_after(q, cur) == still_waiting(wq, d));
        if k - 1 == 0 || total_time(pre) < duration {
            if k - 1 == 0 {
                assert(pre =~= Seq::<u64>::empty());
            }
            let x = (event, pending_timer(duration, total_time(pre)));
            assert(wq.push(x).drop_last() =~= wq);
            assert(wq.push(x).last() == x);
            let t = ticked(x.1, d);
            assert(x.1.elapsed == total_time(pre));
            if total_time(cur) < duration {
                assert(t == pending_timer(duration, total_time(cur)));
            }
        } else {
            assert(total_time(pre) >= 0) by {
                lemma_total_time_nonneg(pre);
            }
        }
    }
}

proof fn lemma_total_time_nonneg(deltas: Seq<u64>)
    ensures
        total_time(deltas) >= 0,
    decreases deltas.len(),
{
    if deltas.len() > 0 {
        lemma_total_time_nonneg(deltas.drop_last());
    }
}

/// A scheduled event fires exactly once: in the first frame at which the frame time since it
/// was scheduled reaches its duration, after what fires in that frame anyway; in every other
/// frame, what fires is what would have fired without it.
pub proof fn lemma_scheduled_event_fires_once<E>(
    q: Seq<(E, FrameTimer)>,
    event: E,
    duration: u64,
    deltas: Seq<u64>,
    j: int,
)
    requires
        0 <= j < deltas.len(),
    ensures
        ({
            let s = q.push((event, fresh_timer(duration, false)));
            let due = total_time(deltas.take(j + 1)) >= duration && (j == 0 || total_time(
                deltas.take(j),
            ) < duration);
            &&& due ==> fired_in(s, deltas, j) == fired_in(q, deltas, j).push(event)
            &&& !due ==> fired_in(s, deltas, j) == fired_in(q, deltas, j)
        }),
{
    lemma_scheduled_entry_waits(q, event, duration, deltas, j);
    let s = q.push((event, fresh_timer(duration, false)));
    let pre = deltas.take(j);
    let next = deltas.take(j + 1);
    assert(next.drop_last() =~= pre);
    assert(next.last() == deltas[j]);
    let wq = waiting_after(q, pre);
    lemma_total_time_nonneg(pre);
    assert(total_time(next) == total_time(pre) + deltas[j]);
    if j == 0 || total_time(pre) < duration {
        if j == 0 {
            assert(pre =~= Seq::<u64>::empty());
        }
        let x = (event, pending_timer(duration, total_time(pre)));
        assert(waiting_after(s, pre) == wq.push(x));
        assert(wq.push(x).drop_last() =~= wq);
        assert(wq.push(x).last() == x);
        assert(x.1.elapsed == total_time(pre));
    } else {
        lemma_total_time_nonneg(pre);
    }
}

} // verus!
