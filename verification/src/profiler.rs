//! The report channel and its consumer.
//!
//! A `Profiler` holds the reports that threads have delivered and that the
//! consumer has not taken yet, first come first out, and never more than its
//! bound. It is one plain value: where several threads deliver, their caller
//! guards it.

use vstd::prelude::*;
use crate::counters::FrameReport;

verus! {

/// What can go wrong at a frame boundary or at the end of a region.
#[derive(Clone, Copy, Debug, PartialEq, Eq, Structural)]
pub enum ProfilerError {
    /// A report was made before any consumer was there to take it.
    NotInitialised,
    /// The channel holds as many reports as it may; this one is lost.
    ChannelFull,
    /// A frame boundary came while a region was still open.
    UnterminatedRegion,
    /// A region was ended that is not the innermost open one of its thread.
    StackDiscipline,
}

/// The number of reports that a channel holds by default.
pub const PROFILER_CHANNEL_BOUND: usize = 10000;

/// The consumer's end of the report channel, with the reports in it.
#[derive(Debug)]
pub struct Profiler {
    reports: Vec<FrameReport>,
    bound: usize,
}

impl ProfilerError {
    /// What the error means, in words.
    pub fn message(&self) -> (text: &'static str)
        ensures
            text@ == match *self {
                ProfilerError::NotInitialised => "Profiler not yet initialised!"@,
                ProfilerError::ChannelFull => "Profiler channel is full!"@,
                ProfilerError::UnterminatedRegion => "Frame advanced inside an open region!"@,
                ProfilerError::StackDiscipline => "Region ended out of order!"@,
            },
    {
        match self {
            ProfilerError::NotInitialised => "Profiler not yet initialised!",
            ProfilerError::ChannelFull => "Profiler channel is full!",
            ProfilerError::UnterminatedRegion => "Frame advanced inside an open region!",
            ProfilerError::StackDiscipline => "Region ended out of order!",
        }
    }
}

/// The number of reports that the channel in `profiler` can still take, or
/// `None` where there is no channel yet.
pub open spec fn room(profiler: Option<Profiler>) -> Option<nat> {
    match profiler {
        Some(p) => Some(
            if p.pending().len() <= p.bound() {
                (p.bound() - p.pending().len()) as nat
            } else {
                0
            },
        ),
        None => None,
    }
}

impl Profiler {
    #[verifier::type_invariant]
    spec fn inv(self) -> bool {
        self.reports@.len() <= self.bound
    }

    /// The reports that were delivered and not yet taken, oldest first.
    pub closed spec fn pending(&self) -> Seq<FrameReport> {
        self.reports@
    }

    /// The most reports that the channel holds at any time.
    pub closed spec fn bound(&self) -> usize {
        self.bound
    }

    /// An empty channel of the default bound.
    pub fn new() -> (profiler: Profiler)
        ensures
            profiler.pending().len() == 0,
            profiler.bound() == PROFILER_CHANNEL_BOUND,
    {
        Profiler { reports: Vec::new(), bound: PROFILER_CHANNEL_BOUND }
    }

    /// An empty channel that holds at most `bound` reports.
    pub fn with_bound(bound: usize) -> (profiler: Profiler)
        ensures
            profiler.pending().len() == 0,
            profiler.bound() == bound,
    {
        Profiler { reports: Vec::new(), bound }
    }

    /// The number of reports waiting to be taken, which is never more than
    /// the bound.
    pub fn len(&self) -> (n: usize)
        ensures
            n == self.pending().len(),
            n <= self.bound(),
    {
        proof {
            use_type_invariant(self);
        }
        self.reports.len()
    }

    /// The bound that the channel was made with.
    pub fn capacity(&self) -> (bound: usize)
        ensures
            bound == self.bound(),
    {
        self.bound
    }

    /// Puts `state` behind the reports that wait, unless the channel is
    /// full: then the channel stays as it is and the report is lost.
    pub fn try_send(&mut self, state: FrameReport) -> (sent: Result<(), ProfilerError>)
        ensures
            final(self).bound() == old(self).bound(),
            old(self).pending().len() < old(self).bound() ==> sent == Ok::<(), ProfilerError>(())
                && final(self).pending() == old(self).pending().push(state),
            old(self).pending().len() >= old(self).bound() ==> sent == Err::<(), ProfilerError>(
                ProfilerError::ChannelFull,
            ) && final(self).pending() == old(self).pending(),
    {
        if self.reports.len() < self.bound {
            let mut reports: Vec<FrameReport> = Vec::new();
            core::mem::swap(&mut reports, &mut self.reports);
            reports.push(state);
            core::mem::swap(&mut reports, &mut self.reports);
            Ok(())
        } else {
            Err(ProfilerError::ChannelFull)
        }
    }

    /// Takes every report that waits, oldest first, and leaves the channel
    /// empty. With nothing waiting the result is empty.
    pub fn receive_reports(&mut self) -> (reports: Vec<FrameReport>)
        ensures
            reports@ == old(self).pending(),
            final(self).pending().len() == 0,
            final(self).bound() == old(self).bound(),
    {
        let mut reports: Vec<FrameReport> = Vec::new();
        core::mem::swap(&mut reports, &mut self.reports);
        reports
    }
}

/// Delivers `state` to the channel in `profiler`. Without a channel the
/// report is lost to `NotInitialised`, with a full one to `ChannelFull`;
/// otherwise it waits behind the reports delivered before it.
pub fn send_profiler_state(profiler: &mut Option<Profiler>, state: FrameReport) -> (sent: Result<
    (),
    ProfilerError,
>)
    ensures
        sent == match room(*old(profiler)) {
            None => Err::<(), ProfilerError>(ProfilerError::NotInitialised),
            Some(free) => if free == 0 {
                Err::<(), ProfilerError>(ProfilerError::ChannelFull)
            } else {
                Ok::<(), ProfilerError>(())
            },
        },
        match *old(profiler) {
            None => *final(profiler) is None,
            Some(before) => *final(profiler) matches Some(after) && after.bound() == before.bound()
                && after.pending() == if sent is Ok {
                before.pending().push(state)
            } else {
                before.pending()
            },
        },
{
    match profiler {
        Some(channel) => {
            proof {
                use_type_invariant(&*channel);
            }
            channel.try_send(state)
        },
        None => Err(ProfilerError::NotInitialised),
    }
}

} // verus!
