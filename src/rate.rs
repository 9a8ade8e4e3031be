//! Rate governor: a feedback-controlled interval between outbound requests.
use vstd::prelude::*;

verus! {

pub const NANOS_PER_MILLI: u128 = 1_000_000;

/// The governor's state in nanoseconds: current interval, its bounds, and the
/// instant (on the caller's monotonic clock) of the last paced request.
pub struct Pacing {
    pub interval: int,
    pub min_interval: int,
    pub max_interval: int,
    pub last_timestamp: int,
}

/// The interval after one speed-up: nine tenths, but not below the minimum.
pub open spec fn sped_up(interval: int, min_interval: int) -> int {
    let scaled = interval * 9 / 10;
    if scaled > min_interval { scaled } else { min_interval }
}

/// The interval after one slow-down: doubled, but not above the maximum.
pub open spec fn slowed_down(interval: int, max_interval: int) -> int {
    let scaled = interval * 2;
    if scaled < max_interval { scaled } else { max_interval }
}

pub struct RateControl {
    interval: u128,
    min_interval: u128,
    max_interval: u128,
    last_timestamp: u64,
}

impl View for RateControl {
    type V = Pacing;

    closed spec fn view(&self) -> Pacing {
        Pacing {
            interval: self.interval as int,
            min_interval: self.min_interval as int,
            max_interval: self.max_interval as int,
            last_timestamp: self.last_timestamp as int,
        }
    }
}

/// Bounds that every reachable governor state keeps.
pub open spec fn pacing_wf(p: Pacing) -> bool {
    &&& 0 < p.min_interval <= p.max_interval <= u64::MAX * NANOS_PER_MILLI
    &&& p.min_interval <= p.interval
    &&& (p.interval <= p.max_interval || p.interval <= 2 * p.min_interval)
    &&& 0 <= p.last_timestamp <= u64::MAX
}

impl RateControl {
    /// A governor with bounds `min` and `max` milliseconds, starting at twice
    /// the minimum, whose last paced request was at `now` nanoseconds.
    pub fn new(min: u64, max: u64, now: u64) -> (r: RateControl)
        requires
            0 < min <= max,
        ensures
            pacing_wf(r@),
            r@.min_interval == min * NANOS_PER_MILLI,
            r@.max_interval == max * NANOS_PER_MILLI,
            r@.interval == 2 * min * NANOS_PER_MILLI,
            r@.last_timestamp == now,
    {
        let min_interval: u128 = min as u128 * NANOS_PER_MILLI;
        let max_interval: u128 = max as u128 * NANOS_PER_MILLI;
        RateControl { interval: min_interval * 2, min_interval, max_interval, last_timestamp: now }
    }

    /// Current interval in nanoseconds.
    pub fn interval_nanos(&self) -> (r: u128)
        ensures
            r == self@.interval,
    {
        self.interval
    }

    /// Lower bound of the interval in nanoseconds.
    pub fn min_interval_nanos(&self) -> (r: u128)
        ensures
            r == self@.min_interval,
    {
        self.min_interval
    }

    /// Upper bound that slowing down respects, in nanoseconds.
    pub fn max_interval_nanos(&self) -> (r: u128)
        ensures
            r == self@.max_interval,
    {
        self.max_interval
    }

    /// The instant before which the next paced request may not start:
    /// the last one plus the interval, saturated at the clock's end.
    pub fn deadline(&self) -> (r: u64)
        requires
            pacing_wf(self@),
        ensures
            r == if self@.last_timestamp + self@.interval <= u64::MAX {
                self@.last_timestamp + self@.interval
            } else {
                u64::MAX as int
            },
    {
        let end: u128 = self.last_timestamp as u128 + self.interval;
        if end > u64::MAX as u128 {
            u64::MAX
        } else {
            end as u64
        }
    }

    /// Records that a paced request starts at `now`.
    pub fn mark(&mut self, now: u64)
        requires
            pacing_wf(old(self)@),
        ensures
            pacing_wf(final(self)@),
            final(self)@ == (Pacing { last_timestamp: now as int, ..old(self)@ }),
    {
        self.last_timestamp = now;
    }

    /// Shortens the interval by a tenth, never below the minimum.
    pub fn speed_up(&mut self)
        requires
            pacing_wf(old(self)@),
        ensures
            pacing_wf(final(self)@),
            final(self)@ == (Pacing {
                interval: sped_up(old(self)@.interval, old(self)@.min_interval),
                ..old(self)@
            }),
            final(self)@.interval >= final(self)@.min_interval,
    {
        let scaled: u128 = self.interval * 9 / 10;
        self.interval = if scaled > self.min_interval {
            scaled
        } else {
            self.min_interval
        };
    }

    /// Doubles the interval, never above the maximum.
    pub fn slow_down(&mut self)
        requires
            pacing_wf(old(self)@),
        ensures
            pacing_wf(final(self)@),
            final(self)@ == (Pacing {
                interval: slowed_down(old(self)@.interval, old(self)@.max_interval),
                ..old(self)@
            }),
            final(self)@.interval <= final(self)@.max_interval,
    {
        let scaled: u128 = self.interval * 2;
        self.interval = if scaled < self.max_interval {
            scaled
        } else {
            self.max_interval
        };
    }
}

} // verus!
