use vstd::arithmetic::div_mod::{lemma_div_denominator, lemma_div_multiples_vanish};
use vstd::prelude::*;

verus! {

/// The period of the tick loop, given in one of several granularities.
///
/// The granularity only decides the unit in which tick periods and window
/// boundaries are expressed; every conversion below is stated against the
/// common microsecond model `micros`, so the variants agree on the duration
/// they denote.
#[derive(Clone)]
pub enum TaskInterval {
    Micros(u64),
    Millis(u64),
    Seconds(u64),
    Minutes(u64),
}

impl TaskInterval {
    /// The duration denoted by this interval, expressed in microseconds.
    pub open spec fn micros(self) -> int {
        match self {
            TaskInterval::Micros(n) => n as int,
            TaskInterval::Millis(n) => n * 1_000,
            TaskInterval::Seconds(n) => n * 1_000_000,
            TaskInterval::Minutes(n) => n * 60_000_000,
        }
    }

    /// The raw count carried by the variant: the interval's length in its
    /// own unit, which is also the length of every time window it produces.
    pub open spec fn count(self) -> u64 {
        match self {
            TaskInterval::Micros(n) => n,
            TaskInterval::Millis(n) => n,
            TaskInterval::Seconds(n) => n,
            TaskInterval::Minutes(n) => n,
        }
    }

    /// The interval in whole seconds, rounding toward zero.
    pub fn as_secs(&self) -> (r: u64)
        requires
            self.micros() / 1_000_000 <= u64::MAX,
        ensures
            r == self.micros() / 1_000_000,
    {
        match self {
            TaskInterval::Micros(micros) => *micros / 1_000_000,
            TaskInterval::Millis(millis) => {
                proof {
                    lemma_div_multiples_vanish(*millis as int, 1_000);
                    lemma_div_denominator(*millis * 1_000, 1_000, 1_000);
                }
                *millis / 1_000
            },
            TaskInterval::Seconds(secs) => {
                proof {
                    lemma_div_multiples_vanish(*secs as int, 1_000_000);
                }
                *secs
            },
            TaskInterval::Minutes(mins) => {
                proof {
                    lemma_div_multiples_vanish(*mins * 60, 1_000_000);
                }
                *mins * 60
            },
        }
    }

    /// The interval in whole milliseconds, rounding toward zero.
    pub fn as_millis(&self) -> (r: u64)
        requires
            self.micros() / 1_000 <= u64::MAX,
        ensures
            r == self.micros() / 1_000,
    {
        match self {
            TaskInterval::Micros(micros) => *micros / 1_000,
            TaskInterval::Millis(millis) => {
                proof {
                    lemma_div_multiples_vanish(*millis as int, 1_000);
                }
                *millis
            },
            TaskInterval::Seconds(secs) => {
                proof {
                    lemma_div_multiples_vanish(*secs * 1_000, 1_000);
                }
                *secs * 1_000
            },
            TaskInterval::Minutes(mins) => {
                proof {
                    lemma_div_multiples_vanish(*mins * 60_000, 1_000);
                }
                *mins * 60 * 1_000
            },
        }
    }

    /// The interval in microseconds.
    pub fn as_micros(&self) -> (r: u64)
        requires
            self.micros() <= u64::MAX,
        ensures
            r == self.micros(),
    {
        match self {
            TaskInterval::Micros(micros) => *micros,
            TaskInterval::Millis(millis) => *millis * 1_000,
            TaskInterval::Seconds(secs) => *secs * 1_000_000,
            TaskInterval::Minutes(mins) => *mins * 60 * 1_000_000,
        }
    }

    /// The interval in microseconds, where that fits a `u64`.
    pub fn try_as_micros(&self) -> (r: Option<u64>)
        ensures
            match r {
                Some(v) => v == self.micros(),
                None => self.micros() > u64::MAX,
            },
    {
        match self {
            TaskInterval::Micros(micros) => Some(*micros),
            TaskInterval::Millis(millis) => millis.checked_mul(1_000),
            TaskInterval::Seconds(secs) => secs.checked_mul(1_000_000),
            TaskInterval::Minutes(mins) => mins.checked_mul(60_000_000),
        }
    }

    /// The raw count in the interval's own unit.
    pub fn as_u64(&self) -> (r: u64)
        ensures
            r == self.count(),
    {
        match self {
            TaskInterval::Micros(micros) => *micros,
            TaskInterval::Millis(millis) => *millis,
            TaskInterval::Seconds(secs) => *secs,
            TaskInterval::Minutes(mins) => *mins,
        }
    }
}

/// A tick's time window: the span from `start` to `end` over which every
/// task of that tick computes, expressed in the interval's unit.
#[derive(Clone, Copy, Debug, PartialEq, Eq, Structural)]
pub struct TimeWindow {
    pub start: u64,
    pub end: u64,
}

impl TimeWindow {
    /// The window is exactly one interval long, and not empty.
    pub open spec fn spans(self, interval: TaskInterval) -> bool {
        self.start < self.end && self.end - self.start == interval.count()
    }
}

/// Conversions are consistent: whole seconds are whole milliseconds
/// scaled down, and both are the microsecond value scaled down, for every
/// granularity — the unit never changes which duration is denoted.
pub proof fn lemma_interval_conversions_consistent(interval: TaskInterval)
    ensures
        interval.micros() / 1_000_000 == (interval.micros() / 1_000) / 1_000,
        interval.micros() >= 0,
{
    lemma_div_denominator(interval.micros(), 1_000, 1_000);
}

/// The window of a tick that fires at `end`: it reaches one interval
/// length back from the current time.
pub open spec fn window_ending_at(end: u64, interval: TaskInterval) -> TimeWindow {
    TimeWindow { start: (end - interval.count()) as u64, end }
}

} // verus!
