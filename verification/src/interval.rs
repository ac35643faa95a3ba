//! The adaptive interval scheduler: a periodic tick that accumulates the
//! elapsed time and moves on to the next interval of a fixed list whenever
//! the accumulated time is an exact, positive multiple of a threshold.

use vstd::prelude::*;
use vstd::arithmetic::div_mod::{lemma_add_mod_noop, lemma_mod_self_0, lemma_small_mod};

verus! {

/// Position in the interval list and the time accumulated so far.
#[derive(Clone, Copy, Debug, PartialEq, Eq, Structural)]
pub struct TimerInfo {
    pub current_timeout: usize,
    pub cumul_timeout: u32,
}

/// The mathematical value of a [`TimerInfo`].
pub struct TimerView {
    pub index: nat,
    pub elapsed: nat,
}

impl View for TimerInfo {
    type V = TimerView;

    open spec fn view(&self) -> TimerView {
        TimerView { index: self.current_timeout as nat, elapsed: self.cumul_timeout as nat }
    }
}

/// The candidate intervals, in the order they are cycled through, and the
/// period after which the next one is taken.
#[derive(Debug)]
pub struct Schedule {
    pub intervals: Vec<u32>,
    pub change_threshold: u32,
}

/// The mathematical value of a [`Schedule`].
pub struct ScheduleView {
    pub intervals: Seq<nat>,
    pub threshold: nat,
}

impl ScheduleView {
    /// There is at least one interval and the threshold is positive.
    pub open spec fn wf(self) -> bool {
        self.intervals.len() > 0 && self.threshold > 0
    }
}

impl View for Schedule {
    type V = ScheduleView;

    open spec fn view(&self) -> ScheduleView {
        ScheduleView {
            intervals: Seq::new(self.intervals@.len(), |i: int| self.intervals@[i] as nat),
            threshold: self.change_threshold as nat,
        }
    }
}

/// Whether a tick that brings the accumulated time to `elapsed` moves on to
/// the next interval: only on an exact, positive multiple of the threshold.
pub open spec fn switches(elapsed: nat, threshold: nat) -> bool {
    elapsed > 0 && elapsed % threshold == 0
}

/// The index that follows `index` in a cyclic list of `len` intervals.
pub open spec fn next_index(index: nat, len: nat) -> nat {
    (index + 1) % len
}

/// One tick: add the current interval, then move on if the sum switches.
pub open spec fn step(s: ScheduleView, t: TimerView) -> TimerView {
    let elapsed = t.elapsed + s.intervals[t.index as int];
    TimerView {
        index: if switches(elapsed, s.threshold) {
            next_index(t.index, s.intervals.len())
        } else {
            t.index
        },
        elapsed,
    }
}

/// The state after `n` ticks from `t`.
pub open spec fn run(s: ScheduleView, t: TimerView, n: nat) -> TimerView
    decreases n,
{
    if n == 0 {
        t
    } else {
        step(s, run(s, t, (n - 1) as nat))
    }
}

/// How many of the first `n` ticks from `t` moved on to the next interval.
pub open spec fn crossings(s: ScheduleView, t: TimerView, n: nat) -> nat
    decreases n,
{
    if n == 0 {
        0
    } else {
        let before = run(s, t, (n - 1) as nat);
        let here: nat = if switches(step(s, before).elapsed, s.threshold) { 1 } else { 0 };
        crossings(s, t, (n - 1) as nat) + here
    }
}

/// The state before the first tick.
pub open spec fn initial() -> TimerView {
    TimerView { index: 0, elapsed: 0 }
}

/// A state that some number of whole ticks leads to from the initial one.
pub open spec fn reachable(s: ScheduleView, t: TimerView) -> bool {
    exists|n: nat| run(s, initial(), n) == t
}

impl Schedule {
    /// A schedule over `intervals`, or `None` where the list is empty or the
    /// threshold is zero.
    pub fn new(intervals: Vec<u32>, change_threshold: u32) -> (r: Option<Schedule>)
        ensures
            r.is_some() <==> intervals@.len() > 0 && change_threshold > 0,
            r matches Some(s) ==> s.intervals == intervals && s.change_threshold
                == change_threshold && s@.wf(),
    {
        if intervals.len() == 0 || change_threshold == 0 {
            None
        } else {
            Some(Schedule { intervals, change_threshold })
        }
    }

    /// The schedule of the blinking indicator: 50 ms and 500 ms in turn,
    /// changed every 5000 ms.
    pub fn blink() -> (s: Schedule)
        ensures
            s@.wf(),
            s@.intervals == seq![50nat, 500nat],
            s@.threshold == 5000,
    {
        let mut intervals: Vec<u32> = Vec::new();
        intervals.push(50);
        intervals.push(500);
        let s = Schedule { intervals, change_threshold: 5000 };
        assert(s@.intervals =~= seq![50nat, 500nat]);
        s
    }

    /// The interval at `index`, or `None` past the end of the list.
    pub fn interval(&self, index: usize) -> (r: Option<u32>)
        ensures
            r.is_some() <==> index < self@.intervals.len(),
            r matches Some(d) ==> d == self@.intervals[index as int],
    {
        if index < self.intervals.len() {
            Some(self.intervals[index])
        } else {
            None
        }
    }
}

impl TimerInfo {
    /// The state before the first tick.
    pub fn new() -> (ti: TimerInfo)
        ensures
            ti@ == initial(),
    {
        TimerInfo { current_timeout: 0, cumul_timeout: 0 }
    }

    /// Whether a tick can be taken: the index names an interval and the sum
    /// fits the counter.
    pub open spec fn can_tick(&self, s: &Schedule) -> bool {
        &&& s@.wf()
        &&& self@.index < s@.intervals.len()
        &&& self@.elapsed + s@.intervals[self@.index as int] <= u32::MAX
    }

    /// One periodic tick. Returns the interval to re-arm the timer with.
    pub fn tick(&mut self, schedule: &Schedule) -> (interval: u32)
        requires
            old(self).can_tick(schedule),
        ensures
            final(self)@ == step(schedule@, old(self)@),
            final(self)@.index < schedule@.intervals.len(),
            interval == schedule@.intervals[final(self)@.index as int],
    {
        let len = schedule.intervals.len();
        self.cumul_timeout = self.cumul_timeout + schedule.intervals[self.current_timeout];
        if self.cumul_timeout > 0 && self.cumul_timeout % schedule.change_threshold == 0 {
            self.current_timeout = (self.current_timeout + 1) % len;
        }
        schedule.intervals[self.current_timeout]
    }

    /// A tick where one can be taken: `None`, and nothing changed, where the
    /// schedule is empty or has no threshold, the index names no interval or
    /// the sum would not fit the counter.
    pub fn checked_tick(&mut self, schedule: &Schedule) -> (r: Option<u32>)
        ensures
            r.is_some() <==> old(self).can_tick(schedule),
            r.is_none() ==> *final(self) == *old(self),
            r matches Some(interval) ==> final(self)@ == step(schedule@, old(self)@)
                && final(self)@.index < schedule@.intervals.len()
                && interval == schedule@.intervals[final(self)@.index as int],
    {
        if schedule.change_threshold == 0 || self.current_timeout >= schedule.intervals.len() {
            return None;
        }
        let d: u32 = schedule.intervals[self.current_timeout];
        if d > u32::MAX - self.cumul_timeout {
            return None;
        }
        Some(self.tick(schedule))
    }
}

/// Ticks keep the index inside the list.
pub proof fn lemma_run_index_in_range(s: ScheduleView, t: TimerView, n: nat)
    requires
        s.wf(),
        t.index < s.intervals.len(),
    ensures
        run(s, t, n).index < s.intervals.len(),
    decreases n,
{
    if n > 0 {
        lemma_run_index_in_range(s, t, (n - 1) as nat);
    }
}

/// The accumulated time never goes down.
pub proof fn lemma_run_elapsed_grows(s: ScheduleView, t: TimerView, n: nat)
    ensures
        run(s, t, n).elapsed >= t.elapsed,
    decreases n,
{
    if n > 0 {
        lemma_run_elapsed_grows(s, t, (n - 1) as nat);
    }
}

/// Ticking `a` times and then `b` times is ticking `a + b` times.
pub proof fn lemma_run_split(s: ScheduleView, t: TimerView, a: nat, b: nat)
    ensures
        run(s, t, a + b) == run(s, run(s, t, a), b),
    decreases b,
{
    if b > 0 {
        lemma_run_split(s, t, a, (b - 1) as nat);
        assert((a + b - 1) as nat == a + (b - 1) as nat);
    }
}

/// From a state whose accumulated time is a multiple of the threshold, and
/// with a current interval `d` that divides the threshold, the index stays
/// where it is for as long as `n * d` is below the threshold, and moves on
/// to the next interval at the very tick that makes `n * d` equal to it.
pub proof fn lemma_switch_timing(s: ScheduleView, t: TimerView, n: nat)
    requires
        s.wf(),
        t.index < s.intervals.len(),
        s.intervals[t.index as int] > 0,
        s.threshold % s.intervals[t.index as int] == 0,
        t.elapsed % s.threshold == 0,
        n * s.intervals[t.index as int] <= s.threshold,
    ensures
        run(s, t, n).elapsed == t.elapsed + n * s.intervals[t.index as int],
        n * s.intervals[t.index as int] < s.threshold ==> run(s, t, n).index == t.index,
        n * s.intervals[t.index as int] == s.threshold ==> run(s, t, n).index == next_index(
            t.index,
            s.intervals.len(),
        ),
    decreases n,
{
    let d = s.intervals[t.index as int];
    let big = s.threshold as int;
    if n > 0 {
        let m = (n - 1) as nat;
        assert(m * d + d == n * d) by (nonlinear_arith)
            requires
                m + 1 == n,
        ;
        lemma_switch_timing(s, t, m);
        let before = run(s, t, m);
        assert(before.index == t.index);
        let sum = (t.elapsed + n * d) as int;
        assert(step(s, before).elapsed == sum);
        lemma_add_mod_noop(t.elapsed as int, (n * d) as int, big);
        if n * d < s.threshold {
            lemma_small_mod(n * d, s.threshold);
            assert(sum % big == (n * d) as int);
        } else {
            lemma_mod_self_0(big);
            lemma_small_mod(0, s.threshold);
            assert(sum % big == 0);
        }
    } else {
        assert(n * d == 0) by (nonlinear_arith)
            requires
                n == 0,
        ;
    }
}

/// The index after `n` ticks is the starting index advanced, cyclically, by
/// the number of ticks that moved on.
pub proof fn lemma_index_follows_crossings(s: ScheduleView, t: TimerView, n: nat)
    requires
        s.wf(),
        t.index < s.intervals.len(),
    ensures
        run(s, t, n).index == (t.index + crossings(s, t, n)) % s.intervals.len(),
    decreases n,
{
    let len = s.intervals.len() as int;
    if n == 0 {
        lemma_small_mod(t.index, s.intervals.len());
    } else {
        let m = (n - 1) as nat;
        lemma_index_follows_crossings(s, t, m);
        let before = run(s, t, m);
        let c = crossings(s, t, m);
        if switches(step(s, before).elapsed, s.threshold) {
            lemma_add_mod_noop((t.index + c) as int, 1, len);
            lemma_small_mod(before.index, s.intervals.len());
            let sum = (t.index + c) as int;
            assert((sum % len + 1int % len) % len == (sum + 1) % len);
            if len == 1 {
                assert(before.index == 0);
            } else {
                lemma_small_mod(1, s.intervals.len());
            }
        }
    }
}

/// Once the ticks have moved on as many times as there are intervals, the
/// index is back where it started: with two intervals, after two switches.
pub proof fn lemma_full_cycle_returns(s: ScheduleView, t: TimerView, n: nat)
    requires
        s.wf(),
        t.index < s.intervals.len(),
        crossings(s, t, n) == s.intervals.len(),
    ensures
        run(s, t, n).index == t.index,
{
    let len = s.intervals.len() as int;
    lemma_index_follows_crossings(s, t, n);
    lemma_add_mod_noop(t.index as int, len, len);
    lemma_mod_self_0(len);
    lemma_small_mod(t.index, s.intervals.len());
}

/// The initial state is reachable, and a tick leads from a reachable state
/// to a reachable state with its index inside the list: whoever reads the
/// state between two ticks sees the time and the index of one and the same
/// number of whole ticks.
pub proof fn lemma_tick_keeps_reachable(s: ScheduleView, t: TimerView)
    requires
        s.wf(),
        reachable(s, t),
    ensures
        reachable(s, initial()),
        reachable(s, step(s, t)),
        t.index < s.intervals.len(),
        step(s, t).index < s.intervals.len(),
{
    assert(run(s, initial(), 0) == initial());
    let n = choose|n: nat| run(s, initial(), n) == t;
    assert(run(s, initial(), n + 1) == step(s, t));
    lemma_run_index_in_range(s, initial(), n);
    lemma_run_index_in_range(s, initial(), n + 1);
}

} // verus!
