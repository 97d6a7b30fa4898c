//! Generation of a synthetic applied-current waveform: a constant-current
//! charge followed by an equal constant-current discharge, sampled on a
//! uniform time grid. Times are in milliseconds, currents in milliamperes.
use vstd::prelude::*;

verus! {

use crate::model::CURRENT_LIMIT;
use crate::numeric::fdiv;

/// A sampled applied-current waveform: parallel time (ms) and current
/// (mA) series, plus the sampling step.
#[derive(Debug)]
pub struct CurrentFunction {
    pub t: Vec<u64>,
    pub i: Vec<i64>,
    pub dt: u64,
}

/// The number of samples of a full cycle: `ceil(2 * time / dt)`.
pub open spec fn spec_cycle_steps(time: int, dt: int) -> int {
    fdiv(2 * time + dt - 1, dt)
}

impl CurrentFunction {
    /// Returns a full C/5 cycle of an LG MJ1 18650 cell (nominal capacity
    /// 3.2 Ah, so 640 mA) with an 0.1 s timestep.
    pub fn default() -> (c: CurrentFunction)
        ensures
            c.dt == 100,
            c.t@.len() == c.i@.len(),
            c.t@.len() == spec_cycle_steps(18_000_000, 100),
            forall|k: int| 0 <= k < c.t@.len() ==> #[trigger] c.t@[k] == k * 100,
            forall|k: int|
                0 <= k < c.i@.len() ==> #[trigger] c.i@[k] == if k * 100 < 18_000_000 {
                    640int
                } else {
                    -640int
                },
    {
        Self::cycle_from_current(640, 18_000_000, 100)
    }

    /// Generates a full cycle: `current` milliamperes of charge for
    /// `time` milliseconds, then the same magnitude of discharge, sampled
    /// every `dt` milliseconds.
    pub fn cycle_from_current(current: i64, time: u64, dt: u64) -> (c: CurrentFunction)
        requires
            1 <= dt <= 1_000_000_000_000,
            time <= 4_000_000_000_000_000_000,
            -CURRENT_LIMIT <= current <= CURRENT_LIMIT,
        ensures
            c.dt == dt,
            c.t@.len() == c.i@.len(),
            c.t@.len() == spec_cycle_steps(time as int, dt as int),
            forall|k: int| 0 <= k < c.t@.len() ==> #[trigger] c.t@[k] == k * (dt as int),
            forall|k: int|
                0 <= k < c.i@.len() ==> #[trigger] c.i@[k] == if k * (dt as int) < time {
                    current as int
                } else {
                    -(current as int)
                },
    {
        let n_steps: u64 = (2 * time + dt - 1) / dt;
        proof {
            vstd::arithmetic::div_mod::lemma_fundamental_div_mod(
                2 * (time as int) + dt - 1,
                dt as int,
            );
        }
        let mut t: Vec<u64> = Vec::new();
        let mut i: Vec<i64> = Vec::new();
        let mut step: u64 = 0;
        while step < n_steps
            invariant
                step <= n_steps,
                n_steps == spec_cycle_steps(time as int, dt as int),
                (n_steps as int) * (dt as int) <= 2 * (time as int) + 2 * (dt as int),
                dt >= 1,
                time <= 4_000_000_000_000_000_000,
                dt <= 1_000_000_000_000,
                -CURRENT_LIMIT <= current <= CURRENT_LIMIT,
                t@.len() == step,
                i@.len() == step,
                forall|k: int| 0 <= k < step ==> #[trigger] t@[k] == k * (dt as int),
                forall|k: int|
                    0 <= k < step ==> #[trigger] i@[k] == if k * (dt as int) < time {
                        current as int
                    } else {
                        -(current as int)
                    },
            decreases n_steps - step,
        {
            proof {
                assert((step as int) * (dt as int) < (n_steps as int) * (dt as int))
                    by (nonlinear_arith)
                    requires
                        step < n_steps,
                        dt >= 1,
                ;
            }
            let time_val: u64 = step * dt;
            t.push(time_val);
            let current_val: i64 = if time_val < time {
                current
            } else {
                -current
            };
            i.push(current_val);
            step = step + 1;
        }
        CurrentFunction { t, i, dt }
    }

    /// Returns the current at the first sample whose time is at or past
    /// the given time, or the last sample's current when the given time
    /// lies beyond the series.
    pub fn current(&self, time: u64) -> (r: i64)
        requires
            self.t@.len() == self.i@.len(),
            self.i@.len() > 0,
        ensures
            r == spec_current_lookup(self.t@, self.i@, time, 0),
    {
        let n: usize = self.t.len();
        let mut k: usize = 0;
        while k < n
            invariant
                k <= n,
                n == self.t@.len(),
                self.t@.len() == self.i@.len(),
                self.i@.len() > 0,
                spec_current_lookup(self.t@, self.i@, time, 0) == spec_current_lookup(
                    self.t@,
                    self.i@,
                    time,
                    k as int,
                ),
            decreases n - k,
        {
            if self.t[k] >= time {
                return self.i[k];
            }
            k = k + 1;
        }
        self.i[n - 1]
    }
}

/// The scan `current` performs, as a recursion over the starting index.
pub open spec fn spec_current_lookup(t: Seq<u64>, i: Seq<i64>, time: u64, k: int) -> i64
    decreases t.len() - k,
{
    if k < 0 || k >= t.len() {
        i[i.len() - 1]
    } else if t[k] >= time {
        i[k]
    } else {
        spec_current_lookup(t, i, time, k + 1)
    }
}

} // verus!
