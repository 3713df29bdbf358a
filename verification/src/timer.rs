//! A sliding min/max tracker that scales a stream of values to a percentage
//! of its recent range. The wall clock stays outside: each update is handed
//! the seconds elapsed since the minimum's and the maximum's windows were
//! last reset.

use vstd::prelude::*;

verus! {

/// Running range state: the current window's extremes and the next window's
/// candidates.
#[derive(Clone, Copy, PartialEq, Eq, Structural, Debug)]
pub struct Timer {
    pub min: usize,
    pub max: usize,
    pub last_min: usize,
    pub last_max: usize,
    pub len: u64,
}

/// What one update does to the state, before any window reset.
pub open spec fn spec_timer_absorb(t: Timer, v: usize) -> Timer {
    let t1 = if v > t.last_max {
        Timer { last_max: v, ..t }
    } else if v < t.last_min {
        Timer { last_min: v, ..t }
    } else {
        t
    };
    let t2 = if v > t1.max {
        Timer { max: v, ..t1 }
    } else {
        t1
    };
    if v < t2.min {
        Timer { min: v, ..t2 }
    } else {
        t2
    }
}

/// Window expiry: when a window's age reaches the configured length, its
/// extreme is replaced by the candidate gathered meanwhile.
pub open spec fn spec_timer_expire(t: Timer, elapsed_min_s: u64, elapsed_max_s: u64) -> Timer {
    let t1 = if elapsed_min_s >= t.len {
        Timer { min: t.last_min, last_min: usize::MAX as usize, ..t }
    } else {
        t
    };
    if elapsed_max_s >= t1.len {
        Timer { max: t1.last_max, last_max: 0usize, ..t1 }
    } else {
        t1
    }
}

/// Where `v` sits in the range, as a whole percentage; a collapsed or
/// inverted range reads zero.
pub open spec fn spec_timer_percent(t: Timer, v: usize) -> u64 {
    if t.min >= t.max {
        0u64
    } else if v <= t.min {
        0u64
    } else if v >= t.max {
        100u64
    } else {
        (((v - t.min) * 100) / (t.max as int - t.min as int)) as u64
    }
}

impl Timer {
    pub fn new(length: u64) -> (t: Timer)
        ensures
            t == (Timer {
                min: usize::MAX as usize,
                max: 0usize,
                last_min: usize::MAX as usize,
                last_max: 0usize,
                len: length,
            }),
    {
        Timer { min: usize::MAX, max: 0, last_min: usize::MAX, last_max: 0, len: length }
    }

    /// Feeds one value: widens the current and candidate ranges, retires
    /// expired windows, and reports the value's place in the range.
    pub fn update_value(&mut self, v: usize, elapsed_min_s: u64, elapsed_max_s: u64) -> (p: u64)
        ensures
            *final(self) == spec_timer_expire(
                spec_timer_absorb(*old(self), v),
                elapsed_min_s,
                elapsed_max_s,
            ),
            p == spec_timer_percent(*final(self), v),
            p <= 100,
    {
        if v > self.last_max {
            self.last_max = v;
        } else if v < self.last_min {
            self.last_min = v;
        }
        if v > self.max {
            self.max = v;
        }
        if v < self.min {
            self.min = v;
        }
        if elapsed_min_s >= self.len {
            self.min = self.last_min;
            self.last_min = usize::MAX;
        }
        if elapsed_max_s >= self.len {
            self.max = self.last_max;
            self.last_max = 0;
        }
        if self.min >= self.max {
            return 0;
        }
        if v <= self.min {
            return 0;
        }
        if v >= self.max {
            return 100;
        }
        proof {
            assert(((v - self.min) as int) * 100 < ((self.max - self.min) as int) * 100)
                by (nonlinear_arith)
                requires
                    ((v - self.min) as int) < ((self.max - self.min) as int),
                    0 < (v - self.min) as int,
            ;
            assert((((v - self.min) as int) * 100) / ((self.max as int - self.min as int)) < 100)
                by (nonlinear_arith)
                requires
                    0 < ((v - self.min) as int),
                    ((v - self.min) as int) < ((self.max - self.min) as int),
            ;
        }
        let num: u128 = ((v - self.min) as u128) * 100;
        let den: u128 = (self.max - self.min) as u128;
        (num / den) as u64
    }
}

} // verus!
