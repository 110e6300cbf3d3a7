//! A row of frames, the last of which is being recorded.

use vstd::prelude::*;
use crate::profiler_frame::ProfilerCounter;
use crate::profiler_frame::ProfilerFrame;
use crate::reporter::precise_time_ns;

verus! {

/// The frames recorded so far and the frame that is being recorded. Frames
/// beyond the current one are kept ready for the frames to come.
pub struct ProfilerState {
    last_frame: usize,
    frames: Vec<ProfilerFrame>,
}

/// A frame as `ProfilerFrame::new` makes it.
pub open spec fn fresh(frame: ProfilerFrame) -> bool {
    &&& frame.begin_time == 0
    &&& frame.end_time == 0
    &&& frame.covered_time == 0
    &&& frame.counters.name@ == "root"@
    &&& frame.counters.time == 0
    &&& frame.counters.counters@.len() == 0
    &&& frame.counters.active_counter is None
}

/// The number of frames that the row is grown to when the frame at `last`
/// needs room: half as many again as `last + 2`.
pub open spec fn grown(last: int) -> int {
    (last + 2) * 3 / 2
}

impl ProfilerState {
    /// The place of the frame that is being recorded.
    pub closed spec fn last_frame(&self) -> usize {
        self.last_frame
    }

    /// The frames.
    pub closed spec fn frames(&self) -> Seq<ProfilerFrame> {
        self.frames@
    }

    /// The frame that is being recorded.
    pub open spec fn current(&self) -> ProfilerFrame {
        self.frames()[self.last_frame() as int]
    }

    /// The current frame exists, and the path of its open regions is sound.
    pub open spec fn wf(&self) -> bool {
        &&& self.last_frame() < self.frames().len()
        &&& self.current().counters.wf()
    }

    /// One frame, which begins now.
    pub fn new() -> (state: ProfilerState)
        ensures
            state.wf(),
            state.last_frame() == 0,
            state.frames().len() == 1,
            fresh(ProfilerFrame { begin_time: 0, ..state.current() }),
    {
        let mut frames: Vec<ProfilerFrame> = Vec::new();
        frames.push(ProfilerFrame::begin_new(precise_time_ns()));
        ProfilerState { last_frame: 0, frames }
    }

    /// The place of the frame that is being recorded.
    pub fn current_index(&self) -> (index: usize)
        ensures
            index == self.last_frame(),
    {
        self.last_frame
    }

    /// The number of frames in the row, those kept ready included.
    pub fn len(&self) -> (len: usize)
        ensures
            len == self.frames().len(),
    {
        self.frames.len()
    }

    /// The frame before the one that is being recorded, to be changed in
    /// place.
    pub fn previous_frame(&mut self) -> (frame: &mut ProfilerFrame)
        requires
            1 <= old(self).last_frame() <= old(self).frames().len(),
        ensures
            *frame == old(self).frames()[old(self).last_frame() - 1],
            final(self).frames() == old(self).frames().update(
                old(self).last_frame() - 1,
                *final(frame),
            ),
            final(self).last_frame() == old(self).last_frame(),
    {
        let at = self.last_frame - 1;
        &mut self.frames[at]
    }

    /// The frame that is being recorded, to be changed in place.
    pub fn current_frame(&mut self) -> (frame: &mut ProfilerFrame)
        requires
            old(self).last_frame() < old(self).frames().len(),
        ensures
            *frame == old(self).current(),
            final(self).frames() == old(self).frames().update(
                old(self).last_frame() as int,
                *final(frame),
            ),
            final(self).last_frame() == old(self).last_frame(),
    {
        let at = self.last_frame;
        &mut self.frames[at]
    }

    /// Ends the frame that is being recorded and begins the next: the frame
    /// gets its end time, and its root counter the time since the frame
    /// began (none if the clock stepped back); the next frame gets its
    /// begin time. Where the row has no frame left, it is grown with fresh
    /// frames to `grown` of the ended frame's place.
    pub fn next_frame(&mut self)
        requires
            old(self).last_frame() < old(self).frames().len(),
            (old(self).last_frame() + 3) * 3 <= usize::MAX,
        ensures
            final(self).last_frame() == old(self).last_frame() + 1,
            final(self).last_frame() < final(self).frames().len(),
            final(self).frames().len() == if old(self).frames().len() <= old(self).last_frame() + 1 {
                grown(old(self).last_frame() + 1)
            } else {
                old(self).frames().len() as int
            },
            ({
                let ended = final(self).frames()[old(self).last_frame() as int];
                ended == (ProfilerFrame {
                    end_time: ended.end_time,
                    counters: ProfilerCounter {
                        time: ended.counters.time,
                        ..old(self).current().counters
                    },
                    ..old(self).current()
                })
            }),
            ({
                let begun = final(self).current();
                if old(self).last_frame() + 1 < old(self).frames().len() {
                    begun == (ProfilerFrame {
                        begin_time: begun.begin_time,
                        ..old(self).frames()[old(self).last_frame() + 1]
                    })
                } else {
                    fresh(ProfilerFrame { begin_time: 0, ..begun })
                }
            }),
            forall|i: int|
                0 <= i < final(self).frames().len() && i != old(self).last_frame() && i != old(
                    self,
                ).last_frame() + 1 ==> if i < old(self).frames().len() {
                    (#[trigger] final(self).frames()[i]) == old(self).frames()[i]
                } else {
                    fresh(final(self).frames()[i])
                },
    {
        let at = self.last_frame;
        self.frames[at].end_time = precise_time_ns();
        let begin = self.frames[at].begin_time;
        self.frames[at].counters.time = precise_time_ns().saturating_sub(begin);
        self.last_frame += 1;
        let ghost ended = self.frames@[at as int];
        if self.frames.len() <= self.last_frame {
            let target = (self.last_frame + 2) * 3 / 2;
            while self.frames.len() < target
                invariant
                    self.last_frame == old(self).last_frame + 1,
                    old(self).frames@.len() <= self.frames@.len() <= target,
                    target == grown(self.last_frame as int),
                    target >= self.last_frame + 1,
                    at < old(self).frames@.len(),
                    forall|i: int|
                        0 <= i < old(self).frames@.len() ==> (#[trigger] self.frames@[i]) == if i
                            == at {
                            ended
                        } else {
                            old(self).frames@[i]
                        },
                    forall|i: int|
                        old(self).frames@.len() <= i < self.frames@.len() ==> fresh(
                            #[trigger] self.frames@[i],
                        ),
                decreases target - self.frames.len(),
            {
                self.frames.push(ProfilerFrame::new());
            }
        }
        let next = self.last_frame;
        self.frames[next].begin_time = precise_time_ns();
    }

    /// Begins a region under the innermost open region of the frame that is
    /// being recorded.
    pub fn begin_track_time(&mut self, name: String)
        requires
            old(self).wf(),
        ensures
            final(self).wf(),
            final(self).last_frame() == old(self).last_frame(),
            final(self).frames() == old(self).frames().update(
                old(self).last_frame() as int,
                final(self).current(),
            ),
            final(self).current() == (ProfilerFrame {
                counters: final(self).current().counters,
                ..old(self).current()
            }),
            old(self).current().counters.begun(final(self).current().counters, name),
            final(self).current().counters.depth() == old(self).current().counters.depth() + 1,
    {
        let frame = self.current_frame();
        let ghost before = frame.counters;
        let counter = frame.counters.active_counter();
        let ghost inner = *counter;
        counter.counters.push(ProfilerCounter::new(name));
        counter.active_counter = Some(counter.counters.len() - 1);
        proof {
            assert(counter.counters@.take(inner.counters@.len() as int) =~= inner.counters@);
            before.lemma_innermost(inner);
            before.lemma_begun(frame.counters, *counter, name);
        }
    }

    /// Ends the innermost open region of the frame that is being recorded
    /// after `time` nanoseconds, and adds the time to the time that the
    /// frame's regions cover (which stays at the largest number if the sum
    /// does not fit).
    pub fn end_track_time(&mut self, time: u64)
        requires
            old(self).wf(),
        ensures
            final(self).wf(),
            final(self).last_frame() == old(self).last_frame(),
            final(self).frames() == old(self).frames().update(
                old(self).last_frame() as int,
                final(self).current(),
            ),
            final(self).current() == (ProfilerFrame {
                counters: final(self).current().counters,
                covered_time: if old(self).current().covered_time + time <= u64::MAX {
                    (old(self).current().covered_time + time) as u64
                } else {
                    u64::MAX
                },
                ..old(self).current()
            }),
            old(self).current().counters.ended(final(self).current().counters, time),
    {
        let frame = self.current_frame();
        let ghost before = frame.counters;
        {
            let counter = frame.counters.active_counter();
            counter.time = time;
        }
        let ghost between = frame.counters;
        frame.covered_time = frame.covered_time.saturating_add(time);
        proof {
            before.lemma_timed(between, ProfilerCounter { time, ..before.innermost() }, time);
        }
        {
            let counter = frame.counters.parent_active_counter();
            counter.active_counter = None;
        }
        proof {
            before.lemma_ended(
                between,
                ProfilerCounter { time, ..before.innermost() },
                frame.counters,
                ProfilerCounter { active_counter: None, ..between.innermost_parent() },
                time,
            );
        }
    }
}

} // verus!
