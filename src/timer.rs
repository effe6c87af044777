//! A countdown timer over nanoseconds, one-shot or repeating, as used for weapon
//! cooldowns, spawn cadence, pickup delay and sprite animation. The timer belongs to the
//! simulation core itself, so that the core depends on no game engine and its timing
//! rules are verified with the rest.
use vstd::prelude::*;

verus! {

#[derive(Clone, Copy, Debug, PartialEq, Eq, Structural)]
pub enum TimerMode {
    /// Finishes once and stays finished until reset.
    Once,
    /// Finishes each time a whole duration has elapsed, then starts over.
    Repeating,
}

#[derive(Clone, Copy, Debug, PartialEq, Eq, Structural)]
pub struct Timer {
    pub duration: u64,
    pub elapsed: u64,
    pub mode: TimerMode,
    pub finished: bool,
    pub times_finished_this_tick: u64,
}

pub open spec fn fresh_timer(duration: u64, mode: TimerMode) -> Timer {
    Timer { duration, elapsed: 0, mode, finished: false, times_finished_this_tick: 0 }
}

/// The timer's invariant: the elapsed time never exceeds the duration, a finished
/// one-shot timer has elapsed exactly its duration, and a timer that finished on the
/// last tick reports itself finished.
pub open spec fn timer_wf(t: Timer) -> bool {
    &&& t.elapsed <= t.duration
    &&& (t.mode == TimerMode::Once && t.finished) ==> t.elapsed == t.duration
    &&& t.times_finished_this_tick > 0 ==> t.finished
}

/// `a + b`, saturating at `u64::MAX`.
pub open spec fn sat_add(a: int, b: int) -> int {
    if a + b > u64::MAX {
        u64::MAX as int
    } else {
        a + b
    }
}

/// The timer after `delta` more nanoseconds have passed.
pub open spec fn ticked(t: Timer, delta: u64) -> Timer {
    if t.mode == TimerMode::Once && t.finished {
        Timer { times_finished_this_tick: 0, ..t }
    } else {
        let e = sat_add(t.elapsed as int, delta as int);
        if e < t.duration {
            Timer { elapsed: e as u64, finished: false, times_finished_this_tick: 0, ..t }
        } else if t.mode == TimerMode::Once {
            Timer { elapsed: t.duration, finished: true, times_finished_this_tick: 1, ..t }
        } else if t.duration == 0 {
            Timer { elapsed: 0, finished: true, times_finished_this_tick: u64::MAX, ..t }
        } else {
            Timer {
                elapsed: (e % (t.duration as int)) as u64,
                finished: true,
                times_finished_this_tick: (e / (t.duration as int)) as u64,
                ..t
            }
        }
    }
}

impl Timer {
    pub fn new(duration: u64, mode: TimerMode) -> (r: Timer)
        ensures
            r == fresh_timer(duration, mode),
            timer_wf(r),
    {
        Timer { duration, elapsed: 0, mode, finished: false, times_finished_this_tick: 0 }
    }

    /// Advances the timer by `delta` nanoseconds.
    pub fn tick(&mut self, delta: u64)
        ensures
            *final(self) == ticked(*old(self), delta),
            timer_wf(*old(self)) ==> timer_wf(*final(self)),
    {
        proof {
            lemma_tick_keeps_wf(*self, delta);
        }
        if self.mode == TimerMode::Once && self.finished {
            self.times_finished_this_tick = 0;
            return;
        }
        let e: u64 = self.elapsed.saturating_add(delta);
        if e < self.duration {
            self.elapsed = e;
            self.finished = false;
            self.times_finished_this_tick = 0;
        } else if self.mode == TimerMode::Once {
            self.elapsed = self.duration;
            self.finished = true;
            self.times_finished_this_tick = 1;
        } else if self.duration == 0 {
            self.elapsed = 0;
            self.finished = true;
            self.times_finished_this_tick = u64::MAX;
        } else {
            self.elapsed = e % self.duration;
            self.finished = true;
            self.times_finished_this_tick = e / self.duration;
        }
    }

    /// Whether the timer has reached its duration (for a one-shot timer: at any tick so far).
    pub fn finished(&self) -> (r: bool)
        ensures
            r == self.finished,
    {
        self.finished
    }

    /// Whether the last tick made the timer finish.
    pub fn just_finished(&self) -> (r: bool)
        ensures
            r == (self.times_finished_this_tick > 0),
    {
        self.times_finished_this_tick > 0
    }

    pub fn elapsed(&self) -> (r: u64)
        ensures
            r == self.elapsed,
    {
        self.elapsed
    }

    pub fn duration(&self) -> (r: u64)
        ensures
            r == self.duration,
    {
        self.duration
    }

    /// Changes the duration; the elapsed time is kept.
    pub fn set_duration(&mut self, duration: u64)
        ensures
            *final(self) == (Timer { duration, ..*old(self) }),
    {
        self.duration = duration;
    }

    /// Starts the timer over.
    pub fn reset(&mut self)
        ensures
            *final(self) == (Timer { elapsed: 0, finished: false, times_finished_this_tick: 0, ..*old(self) }),
            timer_wf(*final(self)),
    {
        self.elapsed = 0;
        self.finished = false;
        self.times_finished_this_tick = 0;
    }
}

/// Ticking keeps the timer's invariant.
pub proof fn lemma_tick_keeps_wf(t: Timer, delta: u64)
    ensures
        timer_wf(t) ==> timer_wf(ticked(t, delta)),
{
    if t.duration > 0 {
        let e = sat_add(t.elapsed as int, delta as int);
        vstd::arithmetic::div_mod::lemma_mod_bound(e, t.duration as int);
        if e >= t.duration {
            assert(e / (t.duration as int) >= 1) by (nonlinear_arith)
                requires
                    e >= t.duration,
                    t.duration > 0,
            ;
        }
    }
}

/// The sum of the first `n` deltas.
pub open spec fn elapsed_total(deltas: Seq<u64>, n: int) -> int
    decreases n,
{
    if n <= 0 {
        0
    } else {
        elapsed_total(deltas, n - 1) + deltas[n - 1]
    }
}

/// The timer after ticking by each delta of `deltas` in turn.
pub open spec fn run(t: Timer, deltas: Seq<u64>) -> Timer
    decreases deltas.len(),
{
    if deltas.len() == 0 {
        t
    } else {
        ticked(run(t, deltas.drop_last()), deltas.last())
    }
}

proof fn lemma_once_run(duration: u64, deltas: Seq<u64>)
    ensures
        ({
            let t = run(fresh_timer(duration, TimerMode::Once), deltas);
            let n = deltas.len() as int;
            &&& t.mode == TimerMode::Once
            &&& t.duration == duration
            &&& t.finished == (n > 0 && elapsed_total(deltas, n) >= duration)
            &&& t.finished ==> t.elapsed == duration
            &&& !t.finished ==> t.elapsed == elapsed_total(deltas, n)
            &&& n > 0 ==> (t.times_finished_this_tick > 0 <==> (elapsed_total(deltas, n)
                >= duration && (n == 1 || elapsed_total(deltas, n - 1) < duration)))
        }),
    decreases deltas.len(),
{
    let n = deltas.len() as int;
    if n > 0 {
        let prev = deltas.drop_last();
        lemma_once_run(duration, prev);
        assert forall|i: int| 0 <= i < n - 1 implies prev[i] == deltas[i] by {}
        lemma_elapsed_total_prefix(deltas, prev, n - 1);
    }
}

proof fn lemma_elapsed_total_prefix(a: Seq<u64>, b: Seq<u64>, n: int)
    requires
        0 <= n <= b.len(),
        n <= a.len(),
        forall|i: int| 0 <= i < n ==> a[i] == b[i],
    ensures
        elapsed_total(a, n) == elapsed_total(b, n),
    decreases n,
{
    if n > 0 {
        lemma_elapsed_total_prefix(a, b, n - 1);
    }
}

/// A one-shot timer of duration `duration`, started fresh and ticked by `deltas`,
/// reports `just_finished` on exactly one tick: the one on which the total ticked
/// time first reaches `duration`. It is `finished` from that tick on.
pub proof fn lemma_once_finishes_once(duration: u64, deltas: Seq<u64>, i: int)
    requires
        0 <= i < deltas.len(),
    ensures
        run(fresh_timer(duration, TimerMode::Once), deltas.take(i + 1)).times_finished_this_tick > 0
            <==> (elapsed_total(deltas, i + 1) >= duration && (i == 0 || elapsed_total(deltas, i) < duration)),
        run(fresh_timer(duration, TimerMode::Once), deltas.take(i + 1)).finished
            <==> elapsed_total(deltas, i + 1) >= duration,
{
    let p = deltas.take(i + 1);
    lemma_once_run(duration, p);
    lemma_elapsed_total_prefix(deltas, p, i + 1);
    lemma_elapsed_total_prefix(deltas, p, i);
}

/// A finished one-shot timer stays finished on every later tick; only `reset` clears it.
pub proof fn lemma_once_finished_sticky(t: Timer, delta: u64)
    requires
        t.mode == TimerMode::Once,
        t.finished,
    ensures
        ticked(t, delta).finished,
        ticked(t, delta).times_finished_this_tick == 0,
{
}

} // verus!
