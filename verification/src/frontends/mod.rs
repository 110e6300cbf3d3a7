//! What the frontends decide before anything is drawn: where the areas of
//! a screen lie, which lines fit, which regions are folded away, which
//! frames are kept. Drawing itself is the caller's.

use vstd::prelude::*;
use crate::counters::FrameReport;

pub mod imgui_frontend;
pub mod termion_frontend;

verus! {

/// A consumer of frame reports.
pub trait ProfilerFrontend {
    /// Takes one report that the profiler has handed out.
    fn receive_reports(&mut self, report: FrameReport);
}

} // verus!
