//! The windowed frontend: a history of frames for every thread, one of
//! which can be held still and looked at.

use std::cmp::Ordering;
use std::collections::VecDeque;
use lazysort::SortedBy;
use vstd::prelude::*;
use crate::counters::Frame;
use crate::counters::FrameReport;
use crate::counters::lemma_reported;
use crate::counters::ReportCounter;
use crate::frontends::ProfilerFrontend;
use crate::name_map::NameMap;
use crate::nesting::Node;

verus! {

/// How the windowed frontend is set up.
pub struct ImguiBuildParams {
    /// The number of frames that are kept for each thread.
    pub frames_history: usize,
    /// Whether frames are recorded from the start.
    pub record_on_start: bool,
    /// The width of the history graph.
    pub history_area_width: i32,
    /// The height of the history graph.
    pub history_area_height: i32,
}

/// A frame report with the time of its roots added up, in nanoseconds.
#[derive(Debug)]
pub struct ImguiFrameReport {
    pub duration: u64,
    pub frame: FrameReport,
}

/// The frames of one thread, the newest first.
#[derive(Debug)]
pub struct ThreadData {
    pub reports: VecDeque<ImguiFrameReport>,
}

/// The windowed frontend but for its windows: the frames it keeps, whether
/// it records, and the frame that is held still.
pub struct ImguiFrontend {
    threads_data: NameMap<ThreadData>,
    frames_history: usize,
    selected_frame: Option<ImguiFrameReport>,
    pause: bool,
    history_area_width: i32,
    history_area_height: i32,
}

impl Default for ImguiBuildParams {
    fn default() -> (params: ImguiBuildParams)
        ensures
            params.frames_history == 666,
            params.record_on_start,
            params.history_area_width == 500,
            params.history_area_height == 30,
    {
        ImguiBuildParams {
            frames_history: 666,
            record_on_start: true,
            history_area_width: 500,
            history_area_height: 30,
        }
    }
}

/// The time of the roots of a forest added up, a root without a duration
/// counting as 0.
pub open spec fn total(forest: Seq<Node<Option<u64>>>) -> nat
    decreases forest.len(),
{
    if forest.len() == 0 {
        0
    } else {
        total(forest.drop_last()) + match forest.last().timing {
            Some(nanos) => nanos as nat,
            None => 0,
        }
    }
}

/// `a` is shown no later than `b`: regions are shown from the longest to
/// the shortest, those without a duration last.
pub open spec fn precedes(a: Option<u64>, b: Option<u64>) -> bool {
    match (a, b) {
        (Some(x), Some(y)) => x >= y,
        (Some(_), None) => true,
        (None, Some(_)) => false,
        (None, None) => true,
    }
}

/// The order of two regions in a window, by their durations and places.
pub fn by_duration(a: &(Option<u64>, usize), b: &(Option<u64>, usize)) -> (order: Ordering)
    ensures
        order is Less ==> precedes(a.0, b.0),
        order is Greater ==> precedes(b.0, a.0),
        order is Equal ==> a.0 == b.0,
{
    match (a.0, b.0) {
        (Some(x), Some(y)) => {
            if x > y {
                Ordering::Less
            } else if x < y {
                Ordering::Greater
            } else {
                Ordering::Equal
            }
        },
        (Some(_), None) => Ordering::Less,
        (None, Some(_)) => Ordering::Greater,
        (None, None) => Ordering::Equal,
    }
}

/// `lazysort`'s `sorted_by`, read to the end: the same items, ordered by
/// `by_duration`. The crate sorts with a quicksort, so items that compare
/// equal come out in no particular order.
#[verifier::external_body]
fn sorted_by_duration(items: Vec<(Option<u64>, usize)>) -> (sorted: Vec<(Option<u64>, usize)>)
    ensures
        sorted@.to_multiset() == items@.to_multiset(),
        forall|i: int, j: int|
            0 <= i < j < sorted@.len() ==> precedes(
                (#[trigger] sorted@[i]).0,
                (#[trigger] sorted@[j]).0,
            ),
{
    items.into_iter().sorted_by(|a, b| by_duration(a, b)).collect()
}

/// The places of `counters` in the order in which a window shows them:
/// from the longest duration to the shortest, regions without a duration
/// last. Every place occurs once.
pub fn display_order(counters: &Vec<ReportCounter>) -> (order: Vec<usize>)
    ensures
        order@.len() == counters@.len(),
        forall|k: int| 0 <= k < order@.len() ==> (#[trigger] order@[k]) < counters@.len(),
        forall|place: usize| place < counters@.len() ==> #[trigger] order@.contains(place),
        forall|i: int, j: int|
            0 <= i < j < order@.len() ==> precedes(
                counters@[(#[trigger] order@[i]) as int].duration,
                counters@[(#[trigger] order@[j]) as int].duration,
            ),
{
    let mut items: Vec<(Option<u64>, usize)> = Vec::new();
    let mut i: usize = 0;
    while i < counters.len()
        invariant
            i <= counters.len(),
            items@.len() == i,
            forall|k: int| 0 <= k < i ==> (#[trigger] items@[k]) == (counters@[k].duration, k as usize),
        decreases counters.len() - i,
    {
        items.push((counters[i].duration, i));
        i += 1;
    }
    let ghost given = items@;
    let sorted = sorted_by_duration(items);
    proof {
        broadcast use vstd::seq_lib::group_to_multiset_ensures;

        assert(sorted@.len() == given.len()) by {
            assert(sorted@.to_multiset().len() == given.to_multiset().len());
        }
        assert forall|k: int| 0 <= k < sorted@.len() implies (#[trigger] sorted@[k]).1
            < counters@.len() && sorted@[k].0 == counters@[sorted@[k].1 as int].duration by {
            assert(sorted@.contains(sorted@[k]));
            assert(sorted@.to_multiset().count(sorted@[k]) > 0);
            assert(given.contains(sorted@[k]));
            let at = choose|at: int| 0 <= at < given.len() && given[at] == sorted@[k];
            assert(given[at] == (counters@[at].duration, at as usize));
        }
        assert forall|p: int| 0 <= p < counters@.len() implies exists|k: int|
            0 <= k < sorted@.len() && (#[trigger] sorted@[k]).1 == (#[trigger] given[p]).1 by {
            assert(given.contains(given[p]));
            assert(given.to_multiset().count(given[p]) > 0);
            assert(sorted@.contains(given[p]));
            let k = choose|k: int| 0 <= k < sorted@.len() && sorted@[k] == given[p];
            assert(sorted@[k].1 == given[p].1);
        }
    }
    let mut order: Vec<usize> = Vec::new();
    let mut k: usize = 0;
    while k < sorted.len()
        invariant
            k <= sorted.len(),
            order@.len() == k,
            forall|m: int| 0 <= m < k ==> (#[trigger] order@[m]) == sorted@[m].1,
        decreases sorted.len() - k,
    {
        order.push(sorted[k].1);
        k += 1;
    }
    proof {
        assert forall|place: usize| place < counters@.len() implies #[trigger] order@.contains(
            place,
        ) by {
            assert(given[place as int].1 == place);
            let k = choose|k: int| 0 <= k < sorted@.len() && (#[trigger] sorted@[k]).1 == place;
            assert(order@[k] == place);
        }
        assert forall|i: int, j: int| 0 <= i < j < order@.len() implies precedes(
            counters@[(#[trigger] order@[i]) as int].duration,
            counters@[(#[trigger] order@[j]) as int].duration,
        ) by {
            assert(precedes(sorted@[i].0, sorted@[j].0));
        }
    }
    order
}

/// The time of the roots of `counters` added up, in nanoseconds. A sum that
/// does not fit stays at the largest number.
pub fn total_duration(counters: &Vec<ReportCounter>) -> (sum: u64)
    ensures
        sum == if total(crate::counters::reported(counters@)) <= u64::MAX {
            total(crate::counters::reported(counters@))
        } else {
            u64::MAX as nat
        },
{
    let mut sum: u64 = 0;
    let mut i: usize = 0;
    let ghost forest = crate::counters::reported(counters@);
    proof {
        lemma_reported(counters@);
    }
    while i < counters.len()
        invariant
            i <= counters.len(),
            forest == crate::counters::reported(counters@),
            forest.len() == counters@.len(),
            forall|j: int| 0 <= j < counters@.len() ==> (#[trigger] forest[j]) == counters@[j]@,
            sum == if total(forest.take(i as int)) <= u64::MAX {
                total(forest.take(i as int))
            } else {
                u64::MAX as nat
            },
        decreases counters.len() - i,
    {
        let nanos = match counters[i].duration {
            Some(nanos) => nanos,
            None => 0,
        };
        proof {
            assert(forest.take(i + 1).drop_last() =~= forest.take(i as int));
            assert(forest.take(i + 1).last() == counters@[i as int]@);
        }
        sum = sum.saturating_add(nanos);
        i += 1;
    }
    assert(forest.take(i as int) =~= forest);
    sum
}

impl Clone for ImguiFrameReport {
    fn clone(&self) -> (copy: ImguiFrameReport)
        ensures
            copy.duration == self.duration,
            copy.frame@ == self.frame@,
    {
        ImguiFrameReport { duration: self.duration, frame: self.frame.clone() }
    }
}

impl ThreadData {
    /// A thread without frames.
    pub fn new() -> (data: ThreadData)
        ensures
            data.reports@.len() == 0,
    {
        ThreadData { reports: VecDeque::new() }
    }
}

impl ImguiFrontend {
    /// The frames of every thread, newest first, the threads in the order in
    /// which they first reported.
    pub closed spec fn threads(&self) -> Seq<(String, ThreadData)> {
        self.threads_data.entries()
    }

    /// The frames of every thread by the thread's name.
    pub closed spec fn history(&self) -> Map<Seq<char>, ThreadData> {
        self.threads_data@
    }

    /// The frontend does not record.
    pub closed spec fn paused(&self) -> bool {
        self.pause
    }

    /// The frame that is held still.
    pub closed spec fn selected(&self) -> Option<ImguiFrameReport> {
        self.selected_frame
    }

    /// The number of frames that `truncate` leaves of each thread.
    pub closed spec fn limit(&self) -> usize {
        self.frames_history
    }

    /// The width and the height of the history graph.
    pub closed spec fn history_area(&self) -> (i32, i32) {
        (self.history_area_width, self.history_area_height)
    }

    /// A frontend without frames. It records unless the parameters say
    /// otherwise.
    pub fn new(params: ImguiBuildParams) -> (frontend: ImguiFrontend)
        ensures
            frontend.threads().len() == 0,
            frontend.history() == Map::<Seq<char>, ThreadData>::empty(),
            frontend.paused() == !params.record_on_start,
            frontend.selected() is None,
            frontend.limit() == params.frames_history,
            frontend.history_area() == (params.history_area_width, params.history_area_height),
    {
        ImguiFrontend {
            threads_data: NameMap::new(),
            frames_history: params.frames_history,
            pause: params.record_on_start == false,
            selected_frame: None,
            history_area_width: params.history_area_width,
            history_area_height: params.history_area_height,
        }
    }

    /// True if the frontend does not record.
    pub fn is_paused(&self) -> (paused: bool)
        ensures
            paused == self.paused(),
    {
        self.pause
    }

    /// The frame that is held still, if there is one.
    pub fn selected_frame(&self) -> (selected: &Option<ImguiFrameReport>)
        ensures
            *selected == self.selected(),
    {
        &self.selected_frame
    }

    /// The frames of every thread.
    pub fn threads_data(&self) -> (threads: &NameMap<ThreadData>)
        ensures
            threads@ == self.history(),
            threads.entries() == self.threads(),
    {
        &self.threads_data
    }

    /// The width and the height of the history graph.
    pub fn history_area_size(&self) -> (size: (i32, i32))
        ensures
            size == self.history_area(),
    {
        (self.history_area_width, self.history_area_height)
    }

    /// Leaves of every thread the newest frames, as many as the frontend
    /// keeps.
    pub fn truncate(&mut self)
        ensures
            final(self).paused() == old(self).paused(),
            final(self).selected() == old(self).selected(),
            final(self).limit() == old(self).limit(),
            final(self).history_area() == old(self).history_area(),
            final(self).threads().len() == old(self).threads().len(),
            forall|i: int|
                0 <= i < old(self).threads().len() ==> {
                    let before = (#[trigger] old(self).threads()[i]);
                    let after = final(self).threads()[i];
                    &&& after.0 == before.0
                    &&& after.1.reports@ == if before.1.reports@.len() > old(self).limit() {
                        before.1.reports@.take(old(self).limit() as int)
                    } else {
                        before.1.reports@
                    }
                },
    {
        let count = self.threads_data.len();
        let mut i: usize = 0;
        while i < count
            invariant
                i <= count,
                count == self.threads_data.entries().len(),
                count == old(self).threads_data.entries().len(),
                self.frames_history == old(self).frames_history,
                self.pause == old(self).pause,
                self.selected_frame == old(self).selected_frame,
                self.history_area_width == old(self).history_area_width,
                self.history_area_height == old(self).history_area_height,
                forall|j: int|
                    i <= j < count ==> (#[trigger] self.threads_data.entries()[j])
                        == old(self).threads_data.entries()[j],
                forall|j: int|
                    0 <= j < i ==> {
                        let before = (#[trigger] old(self).threads_data.entries()[j]);
                        let after = self.threads_data.entries()[j];
                        &&& after.0 == before.0
                        &&& after.1.reports@ == if before.1.reports@.len() > self.frames_history {
                            before.1.reports@.take(self.frames_history as int)
                        } else {
                            before.1.reports@
                        }
                    },
            decreases count - i,
        {
            let mut data = self.threads_data.replace(i, ThreadData::new());
            data.reports.truncate(self.frames_history);
            self.threads_data.replace(i, data);
            i += 1;
        }
    }

    /// The pause button was pressed: a frontend that records stops, and one
    /// that does not lets go of the frame it holds and records again.
    pub fn toggle_pause(&mut self)
        ensures
            final(self).paused() == !old(self).paused(),
            final(self).selected() == if old(self).paused() {
                None
            } else {
                old(self).selected()
            },
            final(self).threads() == old(self).threads(),
            final(self).history() == old(self).history(),
            final(self).limit() == old(self).limit(),
            final(self).history_area() == old(self).history_area(),
    {
        if self.pause == false {
            self.pause = true;
        } else {
            self.selected_frame = None;
            self.pause = false;
        }
    }

    /// A frame of the history graph was clicked: the frontend holds a copy
    /// of the `frame`-th newest frame of the `thread`-th thread and stops
    /// recording.
    pub fn select(&mut self, thread: usize, frame: usize)
        requires
            thread < old(self).threads().len(),
            frame < old(self).threads()[thread as int].1.reports@.len(),
        ensures
            final(self).paused(),
            final(self).selected() is Some,
            ({
                let clicked = old(self).threads()[thread as int].1.reports@[frame as int];
                &&& final(self).selected()->0.duration == clicked.duration
                &&& final(self).selected()->0.frame@ == clicked.frame@
            }),
            final(self).threads() == old(self).threads(),
            final(self).history() == old(self).history(),
            final(self).limit() == old(self).limit(),
            final(self).history_area() == old(self).history_area(),
    {
        let copy = self.threads_data.value(thread).reports[frame].clone();
        self.selected_frame = Some(copy);
        self.pause = true;
    }

    /// This frontend is `before` after it took `report`. A frontend that
    /// does not record is unchanged. In one that records, the report is the
    /// newest frame of its thread, with the time of its roots added up (a
    /// sum that does not fit staying at the largest number), and nothing
    /// else has changed.
    pub open spec fn received(&self, before: &ImguiFrontend, report: FrameReport) -> bool {
        let name = report@.thread_name;
        let earlier = if before.history().contains_key(name) {
            before.history()[name].reports@
        } else {
            Seq::<ImguiFrameReport>::empty()
        };
        &&& self.paused() == before.paused()
        &&& self.selected() == before.selected()
        &&& self.limit() == before.limit()
        &&& self.history_area() == before.history_area()
        &&& if before.paused() {
            &&& self.history() == before.history()
            &&& self.threads() == before.threads()
        } else {
            &&& self.history().dom() == before.history().dom().insert(name)
            &&& forall|other: Seq<char>|
                other != name && before.history().contains_key(other) ==> (
                #[trigger] self.history()[other]) == before.history()[other]
            &&& self.history()[name].reports@ == seq![
                ImguiFrameReport {
                    duration: if total(report@.roots) <= u64::MAX {
                        total(report@.roots) as u64
                    } else {
                        u64::MAX
                    },
                    frame: report,
                },
            ] + earlier
        }
    }

    /// Takes a report, unless the frontend does not record: the report
    /// becomes the newest frame of its thread, with the time of its roots
    /// added up. Threads of one name are one thread here.
    pub fn receive_report(&mut self, report: FrameReport)
        ensures
            final(self).received(old(self), report),
    {
        if self.pause {
            return ;
        }
        let duration = total_duration(&report.counters);
        let name = report.thread_name.clone();
        let found = self.threads_data.index_of(name.as_str());
        let entry = ImguiFrameReport { duration, frame: report };
        match found {
            Some(i) => {
                let mut data = self.threads_data.replace(i, ThreadData::new());
                data.reports.push_front(entry);
                self.threads_data.replace(i, data);
                assert(self.threads_data@ =~= old(self).threads_data@.insert(name@, data));
                assert(self.threads_data@.dom() =~= old(self).threads_data@.dom().insert(name@));
            },
            None => {
                let mut data = ThreadData::new();
                data.reports.push_front(entry);
                assert(data.reports@ =~= seq![entry] + Seq::<ImguiFrameReport>::empty());
                self.threads_data.insert(name, data);
                assert(self.threads_data@.dom() =~= old(self).threads_data@.dom().insert(name@));
            },
        }
    }
}

impl ProfilerFrontend for ImguiFrontend {
    fn receive_reports(&mut self, report: FrameReport)
        ensures
            final(self).received(old(self), report),
    {
        self.receive_report(report);
    }
}

} // verus!
