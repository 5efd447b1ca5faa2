use vstd::prelude::*;
use crate::clock::local_now_seconds;

verus! {

/// Length of the error-budget window, in seconds.
pub const WINDOW_SECS: u64 = 60;

/// Abstract state of a circuit breaker.
pub struct CheckView {
    /// Errors allowed per window before the sensor is reinitialised.
    pub ceiling: nat,
    /// Errors recorded in the current window.
    pub count: nat,
    /// Start of the current window, in seconds.
    pub window_start: nat,
}

impl CheckView {
    pub open spec fn over_budget(self) -> bool {
        self.count >= self.ceiling
    }

    /// One more error; the count saturates at `u32::MAX`.
    pub open spec fn recorded(self) -> CheckView {
        CheckView {
            count: if self.count < u32::MAX {
                self.count + 1
            } else {
                self.count
            },
            ..self
        }
    }

    /// `n` more errors.
    pub open spec fn recorded_n(self, n: nat) -> CheckView
        decreases n,
    {
        if n == 0 {
            self
        } else {
            self.recorded_n((n - 1) as nat).recorded()
        }
    }

    /// The window is over once it has lasted `WINDOW_SECS`, or when the clock
    /// has stepped back before its start.
    pub open spec fn window_over(self, now: nat) -> bool {
        now >= self.window_start + WINDOW_SECS || now < self.window_start
    }

    /// A tick of the window clock: once the window is over the count starts
    /// again from zero in a new window.
    pub open spec fn ticked(self, now: nat) -> CheckView {
        if self.window_over(now) {
            CheckView { count: 0, window_start: now, ..self }
        } else {
            self
        }
    }
}

/// Per-sensor circuit breaker: counts read errors in a rolling window and
/// reports when the budget for the window is used up.
pub struct Check {
    max_errors_per_minute: u32,
    count: u32,
    window_start: u64,
}

impl View for Check {
    type V = CheckView;

    closed spec fn view(&self) -> CheckView {
        CheckView {
            ceiling: self.max_errors_per_minute as nat,
            count: self.count as nat,
            window_start: self.window_start as nat,
        }
    }
}

impl Check {
    /// A breaker allowing `max_errors_per_minute` errors per window, whose
    /// first window starts at `now` (seconds).
    pub fn new(max_errors_per_minute: u32, now: u64) -> (r: Check)
        ensures
            r@ == (CheckView {
                ceiling: max_errors_per_minute as nat,
                count: 0,
                window_start: now as nat,
            }),
    {
        Check { max_errors_per_minute, count: 0, window_start: now }
    }

    /// A breaker whose first window starts now by the device clock (a clock
    /// before the epoch reads as 0).
    pub fn starting_now(max_errors_per_minute: u32) -> (r: Check)
        ensures
            r@.ceiling == max_errors_per_minute,
            r@.count == 0,
    {
        Check::new(max_errors_per_minute, clock_seconds())
    }

    /// `tick` at the device clock's current time.
    pub fn tick_now(&mut self) -> (r: bool)
        ensures
            exists|now: nat| final(self)@ == old(self)@.ticked(now) && r == old(self)@.window_over(now),
    {
        self.tick(clock_seconds())
    }

    /// Records one read error.
    pub fn error(&mut self)
        ensures
            final(self)@ == old(self)@.recorded(),
    {
        if self.count < u32::MAX {
            self.count = self.count + 1;
        }
    }

    /// Whether the error budget of the current window is used up.
    pub fn is_limit(&self) -> (r: bool)
        ensures
            r == self@.over_budget(),
    {
        self.count >= self.max_errors_per_minute
    }

    /// Errors recorded in the current window.
    pub fn errors(&self) -> (r: u32)
        ensures
            r == self@.count,
    {
        self.count
    }

    /// The window clock; `true` when a new window (and a fresh budget) began.
    pub fn tick(&mut self, now: u64) -> (r: bool)
        ensures
            final(self)@ == old(self)@.ticked(now as nat),
            r == old(self)@.window_over(now as nat),
    {
        if now < self.window_start || now - self.window_start >= WINDOW_SECS {
            self.count = 0;
            self.window_start = now;
            true
        } else {
            false
        }
    }
}

fn clock_seconds() -> (r: u64) {
    let now = local_now_seconds();
    if now < 0 {
        0
    } else {
        now as u64
    }
}

proof fn lemma_recorded_n_count(v: CheckView, n: nat)
    requires
        v.count + n <= u32::MAX,
    ensures
        v.recorded_n(n).count == v.count + n,
        v.recorded_n(n).ceiling == v.ceiling,
        v.recorded_n(n).window_start == v.window_start,
    decreases n,
{
    if n > 0 {
        lemma_recorded_n_count(v, (n - 1) as nat);
    }
}

/// Within one window, a breaker starting from no errors is over budget after
/// exactly `ceiling` errors and not before; once the window has elapsed the
/// count is back to zero, with no successful read in between.
pub proof fn lemma_error_budget(v: CheckView, now: nat)
    requires
        v.count == 0,
        v.ceiling <= u32::MAX,
        now >= v.window_start + WINDOW_SECS,
    ensures
        v.recorded_n(v.ceiling).over_budget(),
        forall|k: nat| k < v.ceiling ==> !(#[trigger] v.recorded_n(k)).over_budget(),
        v.recorded_n(v.ceiling).ticked(now).count == 0,
        v.ceiling > 0 ==> !v.recorded_n(v.ceiling).ticked(now).over_budget(),
{
    lemma_recorded_n_count(v, v.ceiling);
    assert forall|k: nat| k < v.ceiling implies !(#[trigger] v.recorded_n(k)).over_budget() by {
        lemma_recorded_n_count(v, k);
    }
}

} // verus!
