use vstd::prelude::*;
use crate::breaker::Check;
use crate::message::{Max3010x, Mpu6050};
use crate::signal::{rates_average, step, HeartRateMonitor};

verus! {

/// A failed read: the breaker records it, and the result says whether the
/// error budget is used up so that the loop tears down and rebuilds the
/// sensor driver. The loop itself goes on either way.
pub fn after_read_failure(check: &mut Check) -> (reinitialize: bool)
    ensures
        final(check)@ == old(check)@.recorded(),
        reinitialize == final(check)@.over_budget(),
{
    check.error();
    check.is_limit()
}

/// One optical sample pair: the infrared channel feeds the beat detector and
/// the reading carries the detector's current average rate.
pub fn optical_reading(monitor: &mut HeartRateMonitor, red: u32, ir: u32, time_ms: u64) -> (r:
    Max3010x)
    requires
        old(monitor).wf(),
    ensures
        final(monitor).wf(),
        final(monitor)@ == step(old(monitor)@, ir, time_ms).0,
        r.heart_rate == rates_average(final(monitor)@.rates),
{
    let _ = monitor.update(ir, time_ms);
    Max3010x { heart_rate: monitor.get_bpm() }
}

/// Step tally of the motion sensor: one step per successful reading.
pub struct StepCounter {
    pub steps: u32,
}

impl StepCounter {
    pub fn new() -> (r: StepCounter)
        ensures
            r.steps == 0,
    {
        StepCounter { steps: 0 }
    }

    /// Counts a successful reading (wrapping at `u32::MAX`) and gives the
    /// motion payload to send.
    pub fn record(&mut self) -> (r: Mpu6050)
        ensures
            final(self).steps == (old(self).steps + 1) % 0x1_0000_0000,
            r.steps == final(self).steps,
    {
        self.steps = self.steps.wrapping_add(1);
        Mpu6050 { steps: self.steps }
    }
}

/// Debounced alert button: a press counts when the line goes low after having
/// been seen high.
pub struct Button {
    pub armed: bool,
}

impl Button {
    pub fn new() -> (r: Button)
        ensures
            !r.armed,
    {
        Button { armed: false }
    }

    /// Feeds one poll of the line; `true` when a press has just completed.
    pub fn sample(&mut self, high: bool) -> (pressed: bool)
        ensures
            pressed == (old(self).armed && !high),
            final(self).armed == high,
    {
        if high {
            self.armed = true;
            false
        } else if self.armed {
            self.armed = false;
            true
        } else {
            false
        }
    }
}

} // verus!
