//! Frame timers: a duration, the time elapsed towards it and whether it finished, advanced by
//! the engine's frame time.
//!
//! Times are whole nanoseconds held in `u64`, which covers more than five centuries.
use bevy::time::{Timer, TimerMode};
use core::time::Duration;
use vstd::prelude::*;

verus! {

/// A timer counting towards `duration`; a repeating timer starts over each time it finishes,
/// a one-shot timer stops when it finishes.
#[derive(Copy, Clone, Debug, PartialEq, Eq, Hash, Structural)]
pub struct FrameTimer {
    /// Length of one period, in nanoseconds.
    pub duration: u64,
    /// Time elapsed in the current period, in nanoseconds.
    pub elapsed: u64,
    /// Whether the timer starts over when it finishes.
    pub repeating: bool,
    /// Whether the timer finished during its last tick (one-shot: whether it has finished).
    pub finished: bool,
    /// How many periods ended during the last tick.
    pub times_finished_this_tick: u32,
}

/// What ticking a timer by `delta` nanoseconds leaves of it.
pub open spec fn ticked(t: FrameTimer, delta: u64) -> FrameTimer {
    if !t.repeating && t.finished {
        FrameTimer { times_finished_this_tick: 0, ..t }
    } else {
        let e = t.elapsed + delta;
        if e >= t.duration {
            if t.repeating {
                FrameTimer {
                    elapsed: if t.duration == 0 { 0 } else { (e % (t.duration as int)) as u64 },
                    finished: true,
                    times_finished_this_tick: if t.duration == 0 {
                        u32::MAX
                    } else {
                        (e / (t.duration as int)) as u32
                    },
                    ..t
                }
            } else {
                FrameTimer { elapsed: t.duration, finished: true, times_finished_this_tick: 1, ..t }
            }
        } else {
            FrameTimer { elapsed: e as u64, finished: false, times_finished_this_tick: 0, ..t }
        }
    }
}

/// A timer whose elapsed time never passed its duration, as ticking keeps it.
pub open spec fn timer_wf(t: FrameTimer) -> bool {
    t.elapsed <= t.duration
}

/// `Timer::new`, `Timer::set_elapsed`, `Timer::tick` and the timer's readings: the elapsed
/// time, whether it finished and how many periods ended, after ticking by `delta` a running
/// timer that had not finished.
///
/// As the timer's source shows: the elapsed time grows by `delta`; the timer finishes when it
/// reaches the duration; a repeating timer then keeps the remainder of the elapsed time by the
/// duration (none for a zero duration) and counts the whole periods it holds (`u32::MAX` for a
/// zero duration), a one-shot timer stops at the duration and counts one period.
#[verifier::external_body]
fn engine_timer_tick(duration: u64, elapsed: u64, repeating: bool, delta: u64) -> (r: (
    u64,
    bool,
    u32,
))
    ensures
        r.1 == (elapsed + delta >= duration),
        elapsed + delta >= duration && repeating ==> r.0 == (if duration == 0 {
            0
        } else {
            (elapsed + delta) % (duration as int)
        }) && r.2 == (if duration == 0 {
            u32::MAX
        } else {
            ((elapsed + delta) / (duration as int)) as u32
        }),
        elapsed + delta >= duration && !repeating ==> r.0 == duration && r.2 == 1,
        elapsed + delta < duration ==> r.0 == elapsed + delta && r.2 == 0,
{
    let mode = if repeating { TimerMode::Repeating } else { TimerMode::Once };
    let mut timer = Timer::new(Duration::from_nanos(duration), mode);
    timer.set_elapsed(Duration::from_nanos(elapsed));
    timer.tick(Duration::from_nanos(delta));
    (timer.elapsed().as_nanos() as u64, timer.finished(), timer.times_finished_this_tick())
}

/// A timer of `duration` nanoseconds that has not started.
pub open spec fn fresh_timer(duration: u64, repeating: bool) -> FrameTimer {
    FrameTimer { duration, elapsed: 0, repeating, finished: false, times_finished_this_tick: 0 }
}

/// A timer set back to its start: nothing elapsed and not finished.
pub open spec fn reset_timer(t: FrameTimer) -> FrameTimer {
    FrameTimer { elapsed: 0, finished: false, times_finished_this_tick: 0, ..t }
}

impl FrameTimer {
    /// A timer of `duration` nanoseconds that has not started.
    pub fn new(duration: u64, repeating: bool) -> (t: FrameTimer)
        ensures
            t == fresh_timer(duration, repeating),
            timer_wf(t),
    {
        FrameTimer { duration, elapsed: 0, repeating, finished: false, times_finished_this_tick: 0 }
    }

    /// Advances the timer by `delta` nanoseconds of frame time.
    pub fn tick(&mut self, delta: u64)
        ensures
            *final(self) == ticked(*old(self), delta),
            timer_wf(*old(self)) ==> timer_wf(*final(self)),
    {
        if !self.repeating && self.finished {
            self.times_finished_this_tick = 0;
        } else {
            let (elapsed, finished, times) = engine_timer_tick(
                self.duration,
                self.elapsed,
                self.repeating,
                delta,
            );
            proof {
                if self.duration > 0 {
                    vstd::arithmetic::div_mod::lemma_fundamental_div_mod(
                        self.elapsed + delta,
                        self.duration as int,
                    );
                }
            }
            self.elapsed = elapsed;
            self.finished = finished;
            self.times_finished_this_tick = times;
        }
    }

    /// Sets the timer back to its start, as the engine's `Timer::reset` does: the elapsed time
    /// goes back to zero and the timer is no longer finished.
    pub fn reset(&mut self)
        ensures
            *final(self) == reset_timer(*old(self)),
    {
        self.elapsed = 0;
        self.finished = false;
        self.times_finished_this_tick = 0;
    }

    /// Whether the timer finished during its last tick.
    pub fn finished(&self) -> (r: bool)
        ensures
            r == self.finished,
    {
        self.finished
    }

    /// Whether a period ended during the last tick.
    pub fn just_finished(&self) -> (r: bool)
        ensures
            r == (self.times_finished_this_tick > 0),
    {
        self.times_finished_this_tick > 0
    }
}

/// A one-shot timer that has not finished finishes on the tick that brings its elapsed time to
/// its duration, and until then counts the frame time.
pub proof fn lemma_one_shot_timer_fires_when_due(t: FrameTimer, delta: u64)
    requires
        timer_wf(t),
        !t.repeating,
        !t.finished,
    ensures
        ticked(t, delta).finished <==> t.elapsed + delta >= t.duration,
        !ticked(t, delta).finished ==> ticked(t, delta).elapsed == t.elapsed + delta,
        ticked(t, delta).finished ==> ticked(ticked(t, delta), delta).finished,
{
}

/// A repeating timer with a period finishes on every tick that completes a period, and keeps
/// less than one period of elapsed time.
pub proof fn lemma_repeating_timer_period(t: FrameTimer, delta: u64)
    requires
        t.repeating,
        t.duration > 0,
    ensures
        ticked(t, delta).finished <==> t.elapsed + delta >= t.duration,
        ticked(t, delta).elapsed < t.duration,
{
}

} // verus!
