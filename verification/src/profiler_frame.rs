//! A frame as a tree of counters in which each counter knows which of its
//! children is open.

use vstd::prelude::*;

verus! {

/// A region with the regions inside it. Its time is in nanoseconds. While a
/// region inside it is open, `active_counter` is that region's place among
/// `counters`.
pub struct ProfilerCounter {
    pub name: String,
    pub time: u64,
    pub counters: Vec<ProfilerCounter>,
    pub active_counter: Option<usize>,
}

/// One frame: when it began and ended, the time that its regions cover, and
/// the regions themselves under a root counter.
pub struct ProfilerFrame {
    pub begin_time: u64,
    pub end_time: u64,
    pub covered_time: u64,
    pub counters: ProfilerCounter,
}

impl ProfilerCounter {
    /// Along the path of open regions every place is one that exists.
    pub open spec fn wf(self) -> bool
        decreases self,
    {
        match self.active_counter {
            None => true,
            Some(i) => i < self.counters@.len() && self.counters@[i as int].wf(),
        }
    }

    /// The number of open regions under this counter.
    pub open spec fn depth(self) -> nat
        decreases self,
    {
        match self.active_counter {
            Some(i) if i < self.counters@.len() => 1 + self.counters@[i as int].depth(),
            _ => 0,
        }
    }

    /// The innermost open region under this counter, or the counter itself
    /// if none is open.
    pub open spec fn innermost(self) -> ProfilerCounter
        decreases self,
    {
        match self.active_counter {
            Some(i) if i < self.counters@.len() => self.counters@[i as int].innermost(),
            _ => self,
        }
    }

    /// The counter that the innermost open region is a child of, or the
    /// counter itself if none is open.
    pub open spec fn innermost_parent(self) -> ProfilerCounter
        decreases self,
    {
        match self.active_counter {
            Some(i) if i < self.counters@.len() => if self.counters@[i as int].active_counter
                is None {
                self
            } else {
                self.counters@[i as int].innermost_parent()
            },
            _ => self,
        }
    }

    /// `after` is this counter with `inner` in the place of its innermost
    /// open region (of itself if none is open), and nothing else changed.
    pub open spec fn with_innermost(self, after: ProfilerCounter, inner: ProfilerCounter) -> bool
        decreases self,
    {
        match self.active_counter {
            Some(i) if i < self.counters@.len() => {
                &&& after.name == self.name
                &&& after.time == self.time
                &&& after.active_counter == self.active_counter
                &&& after.counters@.len() == self.counters@.len()
                &&& forall|j: int|
                    0 <= j < self.counters@.len() && j != i ==> #[trigger] after.counters@[j]
                        == self.counters@[j]
                &&& self.counters@[i as int].with_innermost(after.counters@[i as int], inner)
            },
            _ => after == inner,
        }
    }

    /// `after` is this counter with `inner` in the place of the parent of
    /// its innermost open region (of itself if none is open), and nothing
    /// else changed.
    pub open spec fn with_innermost_parent(
        self,
        after: ProfilerCounter,
        inner: ProfilerCounter,
    ) -> bool
        decreases self,
    {
        match self.active_counter {
            Some(i) if i < self.counters@.len() => if self.counters@[i as int].active_counter
                is None {
                after == inner
            } else {
                &&& after.name == self.name
                &&& after.time == self.time
                &&& after.active_counter == self.active_counter
                &&& after.counters@.len() == self.counters@.len()
                &&& forall|j: int|
                    0 <= j < self.counters@.len() && j != i ==> #[trigger] after.counters@[j]
                        == self.counters@[j]
                &&& self.counters@[i as int].with_innermost_parent(
                    after.counters@[i as int],
                    inner,
                )
            },
            _ => after == inner,
        }
    }

    /// `after` is this counter with a region `name` begun under its
    /// innermost open region (under itself if none is open): the region is
    /// a new last child without time or children, and is the open one.
    pub open spec fn begun(self, after: ProfilerCounter, name: String) -> bool
        decreases self,
    {
        match self.active_counter {
            Some(i) if i < self.counters@.len() => {
                &&& after.name == self.name
                &&& after.time == self.time
                &&& after.active_counter == self.active_counter
                &&& after.counters@.len() == self.counters@.len()
                &&& forall|j: int|
                    0 <= j < self.counters@.len() && j != i ==> #[trigger] after.counters@[j]
                        == self.counters@[j]
                &&& self.counters@[i as int].begun(after.counters@[i as int], name)
            },
            _ => self.begun_here(after, name),
        }
    }

    /// `after` is this counter with a region `name` begun directly under it.
    pub open spec fn begun_here(self, after: ProfilerCounter, name: String) -> bool {
        &&& after.name == self.name
        &&& after.time == self.time
        &&& after.counters@.len() == self.counters@.len() + 1
        &&& after.counters@.take(self.counters@.len() as int) == self.counters@
        &&& after.counters@.last().name == name
        &&& after.counters@.last().time == 0
        &&& after.counters@.last().counters@.len() == 0
        &&& after.counters@.last().active_counter is None
        &&& after.active_counter == Some(self.counters@.len() as usize)
    }

    /// `after` is this counter with its innermost open region ended after
    /// `time` nanoseconds: the region has that time and is open no more.
    /// Where no region is open, the counter itself gets the time.
    pub open spec fn ended(self, after: ProfilerCounter, time: u64) -> bool
        decreases self,
    {
        match self.active_counter {
            Some(i) if i < self.counters@.len() => {
                &&& after.name == self.name
                &&& after.time == self.time
                &&& after.counters@.len() == self.counters@.len()
                &&& forall|j: int|
                    0 <= j < self.counters@.len() && j != i ==> #[trigger] after.counters@[j]
                        == self.counters@[j]
                &&& if self.counters@[i as int].active_counter is None {
                    &&& after.active_counter is None
                    &&& after.counters@[i as int] == (ProfilerCounter {
                        time,
                        ..self.counters@[i as int]
                    })
                } else {
                    &&& after.active_counter == self.active_counter
                    &&& self.counters@[i as int].ended(after.counters@[i as int], time)
                }
            },
            _ => after == (ProfilerCounter { time, active_counter: None, ..self }),
        }
    }

    /// The innermost open region is open no further.
    pub proof fn lemma_innermost(self, inner: ProfilerCounter)
        requires
            self.wf(),
            inner == self.innermost(),
        ensures
            inner.active_counter is None,
        decreases self,
    {
        match self.active_counter {
            Some(i) => {
                self.counters@[i as int].lemma_innermost(inner);
            },
            None => {},
        }
    }

    /// Beginning a region under the innermost open region is beginning it
    /// in the tree, and leaves the tree with one more open region.
    pub proof fn lemma_begun(self, after: ProfilerCounter, inner: ProfilerCounter, name: String)
        requires
            self.wf(),
            self.with_innermost(after, inner),
            self.innermost().begun_here(inner, name),
        ensures
            self.begun(after, name),
            after.wf(),
            after.depth() == self.depth() + 1,
        decreases self,
    {
        reveal_with_fuel(ProfilerCounter::wf, 2);
        reveal_with_fuel(ProfilerCounter::depth, 2);
        match self.active_counter {
            Some(i) => {
                self.counters@[i as int].lemma_begun(after.counters@[i as int], inner, name);
                assert(after.counters@[i as int].wf());
                assert(after.active_counter == Some(i));
                assert(after.wf());
            },
            None => {
                let at = self.counters@.len();
                assert(self.counters@.len() == self.counters.len());
                assert(after.active_counter == Some(at as usize));
                assert(after.counters@[at as int] == after.counters@.last());
                assert(after.counters@[at as int].wf());
                assert(after.wf());
            },
        }
    }

    /// Giving the innermost open region its time and then closing it under
    /// its parent is ending it in the tree.
    pub proof fn lemma_ended(
        self,
        between: ProfilerCounter,
        timed: ProfilerCounter,
        after: ProfilerCounter,
        closed: ProfilerCounter,
        time: u64,
    )
        requires
            self.wf(),
            self.with_innermost(between, timed),
            timed == (ProfilerCounter { time, ..self.innermost() }),
            between.with_innermost_parent(after, closed),
            closed == (ProfilerCounter { active_counter: None, ..between.innermost_parent() }),
        ensures
            self.ended(after, time),
            after.wf(),
        decreases self,
    {
        reveal_with_fuel(ProfilerCounter::wf, 2);
        reveal_with_fuel(ProfilerCounter::with_innermost, 2);
        reveal_with_fuel(ProfilerCounter::innermost, 2);
        reveal_with_fuel(ProfilerCounter::with_innermost_parent, 2);
        reveal_with_fuel(ProfilerCounter::innermost_parent, 2);
        match self.active_counter {
            Some(i) => {
                let child = self.counters@[i as int];
                if child.active_counter is None {
                    assert(between.counters@[i as int] == timed);
                    assert(after.counters == between.counters);
                    assert forall|j: int|
                        0 <= j < self.counters@.len() && j != i implies #[trigger] after.counters@[j]
                        == self.counters@[j] by {
                        assert(between.counters@[j] == self.counters@[j]);
                    }
                } else {
                    child.lemma_timed(between.counters@[i as int], timed, time);
                    child.lemma_ended(
                        between.counters@[i as int],
                        timed,
                        after.counters@[i as int],
                        closed,
                        time,
                    );
                }
            },
            None => {},
        }
    }

    /// Giving the innermost open region its time leaves the path of open
    /// regions as it was.
    pub proof fn lemma_timed(self, between: ProfilerCounter, timed: ProfilerCounter, time: u64)
        requires
            self.wf(),
            self.with_innermost(between, timed),
            timed == (ProfilerCounter { time, ..self.innermost() }),
        ensures
            between.wf(),
            between.active_counter == self.active_counter,
            between.depth() == self.depth(),
        decreases self,
    {
        reveal_with_fuel(ProfilerCounter::wf, 2);
        reveal_with_fuel(ProfilerCounter::depth, 2);
        match self.active_counter {
            Some(i) => {
                self.counters@[i as int].lemma_timed(between.counters@[i as int], timed, time);
            },
            None => {},
        }
    }

    /// A counter without time, children or open region.
    pub fn new(name: String) -> (counter: ProfilerCounter)
        ensures
            counter.name == name,
            counter.time == 0,
            counter.counters@.len() == 0,
            counter.active_counter is None,
            counter.wf(),
    {
        ProfilerCounter { name, time: 0, counters: Vec::new(), active_counter: None }
    }

    /// The innermost open region under this counter, or the counter itself
    /// if none is open, to be changed in place.
    pub fn active_counter(&mut self) -> (active: &mut ProfilerCounter)
        requires
            old(self).wf(),
        ensures
            *active == old(self).innermost(),
            old(self).with_innermost(*final(self), *final(active)),
        decreases *old(self),
    {
        match self.active_counter {
            None => self,
            Some(i) => self.counters[i].active_counter(),
        }
    }
}

impl ProfilerCounter {
    /// The counter that the innermost open region is a child of, or the
    /// counter itself if none is open, to be changed in place.
    pub fn parent_active_counter(&mut self) -> (parent: &mut ProfilerCounter)
        requires
            old(self).wf(),
        ensures
            *parent == old(self).innermost_parent(),
            old(self).with_innermost_parent(*final(self), *final(parent)),
        decreases *old(self),
    {
        match self.active_counter {
            None => self,
            Some(i) => {
                if self.counters[i].active_counter.is_none() {
                    self
                } else {
                    self.counters[i].parent_active_counter()
                }
            },
        }
    }
}

impl ProfilerFrame {
    /// A frame that begins at `time`, with nothing in it.
    pub fn begin_new(time: u64) -> (frame: ProfilerFrame)
        ensures
            frame.begin_time == time,
            frame.end_time == 0,
            frame.covered_time == 0,
            frame.counters.name@ == "root"@,
            frame.counters.time == 0,
            frame.counters.counters@.len() == 0,
            frame.counters.active_counter is None,
    {
        ProfilerFrame {
            begin_time: time,
            end_time: 0,
            covered_time: 0,
            counters: ProfilerCounter::new("root".to_owned()),
        }
    }

    /// A frame that begins at 0, with nothing in it.
    pub fn new() -> (frame: ProfilerFrame)
        ensures
            frame.begin_time == 0,
            frame.end_time == 0,
            frame.covered_time == 0,
            frame.counters.name@ == "root"@,
            frame.counters.time == 0,
            frame.counters.counters@.len() == 0,
            frame.counters.active_counter is None,
    {
        ProfilerFrame::begin_new(0)
    }
}

} // verus!
