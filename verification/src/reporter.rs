//! Time sources: how the duration of a region is measured.

use vstd::prelude::*;

verus! {

/// The kind of the system clock among a thread's region stacks.
pub const SYSTEM_CLOCK: usize = 0;

/// The kind of caller-supplied time sources among a thread's region stacks.
pub const CUSTOM: usize = 1;

/// A caller-supplied measurement, for time that the system clock cannot
/// see (a query on a graphics device, say).
///
/// `start` and `end` are called once each, when the region begins and when it
/// ends. `duration` is polled when a frame report is made and answers in
/// nanoseconds, or `None` while the measurement has not arrived.
pub trait CustomReporter {
    /// Called when the region begins.
    fn start(&mut self);

    /// Called when the region ends.
    fn end(&mut self);

    /// The measured time in nanoseconds, or `None` if it is not known yet.
    fn duration(&mut self) -> Option<u64>;
}

/// The source of a region's duration.
///
/// `SystemClock` holds two readings of the high-resolution counter, in
/// nanoseconds. `Custom` holds an object that measures by itself.
pub enum Reporter {
    SystemClock { start_time: u64, end_time: u64 },
    Custom(Box<dyn CustomReporter>),
}

/// What a contract can know of a time source: the two clock readings, or
/// that the source is the caller's own.
pub enum TimeSource {
    SystemClock { start_time: u64, end_time: u64 },
    Custom,
}

/// The time between two readings of the clock, if the second is not earlier
/// than the first.
pub open spec fn elapsed(start_time: u64, end_time: u64) -> Option<u64> {
    if end_time >= start_time {
        Some((end_time - start_time) as u64)
    } else {
        None
    }
}

impl TimeSource {
    /// `self` is `before` after the region began: a clock has a new first
    /// reading and its second reading untouched, a custom source stays custom.
    pub open spec fn started_from(self, before: TimeSource) -> bool {
        match before {
            TimeSource::SystemClock { end_time, .. } => self is SystemClock && self->end_time
                == end_time,
            TimeSource::Custom => self is Custom,
        }
    }

    /// `self` is `before` after the region ended: a clock has a new second
    /// reading and its first reading untouched, a custom source stays custom.
    pub open spec fn ended_from(self, before: TimeSource) -> bool {
        match before {
            TimeSource::SystemClock { start_time, .. } => self is SystemClock && self->start_time
                == start_time,
            TimeSource::Custom => self is Custom,
        }
    }

    /// `duration` is what a report may show for this source: for a clock the
    /// time between its readings, for a custom source whatever it answered.
    pub open spec fn resolves_to(self, duration: Option<u64>) -> bool {
        match self {
            TimeSource::SystemClock { start_time, end_time } => duration == elapsed(
                start_time,
                end_time,
            ),
            TimeSource::Custom => true,
        }
    }
}

impl View for Reporter {
    type V = TimeSource;

    open spec fn view(&self) -> TimeSource {
        match self {
            Reporter::SystemClock { start_time, end_time } => TimeSource::SystemClock {
                start_time: *start_time,
                end_time: *end_time,
            },
            Reporter::Custom(_) => TimeSource::Custom,
        }
    }
}

/// `time::precise_time_ns`: the current value of the high-resolution
/// performance counter, in nanoseconds since an epoch that the crate leaves
/// unspecified. Nothing is claimed of the value.
#[verifier::external_body]
pub(crate) fn precise_time_ns() -> (now: u64) {
    time::precise_time_ns()
}

impl Reporter {
    /// Records `now` as the moment the region began. A custom source keeps
    /// its own time and is left alone.
    pub fn start_at(&mut self, now: u64)
        ensures
            final(self)@ == match old(self)@ {
                TimeSource::SystemClock { end_time, .. } => TimeSource::SystemClock {
                    start_time: now,
                    end_time,
                },
                TimeSource::Custom => TimeSource::Custom,
            },
    {
        match self {
            Reporter::SystemClock { start_time, .. } => {
                *start_time = now;
            },
            Reporter::Custom(_) => {},
        }
    }

    /// Records `now` as the moment the region ended. A custom source keeps
    /// its own time and is left alone.
    pub fn end_at(&mut self, now: u64)
        ensures
            final(self)@ == match old(self)@ {
                TimeSource::SystemClock { start_time, .. } => TimeSource::SystemClock {
                    start_time,
                    end_time: now,
                },
                TimeSource::Custom => TimeSource::Custom,
            },
    {
        match self {
            Reporter::SystemClock { end_time, .. } => {
                *end_time = now;
            },
            Reporter::Custom(_) => {},
        }
    }

    /// The region begins: a clock reads the counter, a custom source is told.
    pub fn start(&mut self)
        ensures
            final(self)@.started_from(old(self)@),
    {
        if let Reporter::Custom(reporter) = self {
            reporter.start();
        } else {
            self.start_at(precise_time_ns());
        }
    }

    /// The region ends: a clock reads the counter, a custom source is told.
    pub fn end(&mut self)
        ensures
            final(self)@.ended_from(old(self)@),
    {
        if let Reporter::Custom(reporter) = self {
            reporter.end();
        } else {
            self.end_at(precise_time_ns());
        }
    }

    /// The region's duration in nanoseconds. A clock answers with the time
    /// between its two readings, and with `None` if the second is earlier
    /// than the first; a custom source is polled and may answer `None`.
    pub fn duration(&mut self) -> (duration: Option<u64>)
        ensures
            old(self)@.resolves_to(duration),
            final(self)@ == old(self)@,
    {
        match self {
            Reporter::SystemClock { start_time, end_time } => {
                if *end_time >= *start_time {
                    Some(*end_time - *start_time)
                } else {
                    None
                }
            },
            Reporter::Custom(reporter) => reporter.duration(),
        }
    }
}

} // verus!
