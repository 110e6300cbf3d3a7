//! The nodes of a region tree, while they are recorded and as they are
//! reported.

use vstd::prelude::*;
use crate::name_map::Variables;
use crate::nesting::Node;
use crate::nesting::preorder;
use crate::nesting::preorder_node;
use crate::reporter::Reporter;
use crate::reporter::TimeSource;

verus! {

/// A region as its thread records it: with its time source, and with the
/// regions that ended inside it.
pub struct Counter {
    pub name: String,
    pub id: &'static str,
    pub reporter: Reporter,
    pub counters: Vec<Counter>,
}

/// A region as a report shows it.
#[derive(Debug)]
pub struct ReportCounter {
    /// The name that the call site gave the region.
    pub name: String,
    /// The id of the call site, the same in every frame.
    pub id: &'static str,
    /// Nanoseconds spent in the region. `None` means that the region's time
    /// source had no answer when the report was made.
    pub duration: Option<u64>,
    /// The regions that began and ended inside this one, in that order.
    pub counters: Vec<ReportCounter>,
}

/// What one thread recorded between two frame boundaries for one kind of
/// time source.
#[derive(Debug)]
pub struct FrameReport {
    pub thread_name: String,
    pub frame: i32,
    pub counters: Vec<ReportCounter>,
    pub variables: Variables,
}

/// The model of a frame report.
pub struct Frame {
    pub thread_name: Seq<char>,
    pub frame: i32,
    pub roots: Seq<Node<Option<u64>>>,
    pub variables: Map<Seq<char>, u32>,
}

impl View for Counter {
    type V = Node<TimeSource>;

    open spec fn view(&self) -> Node<TimeSource> {
        recorded_node(*self)
    }
}

impl View for ReportCounter {
    type V = Node<Option<u64>>;

    open spec fn view(&self) -> Node<Option<u64>> {
        reported_node(*self)
    }
}

impl View for FrameReport {
    type V = Frame;

    open spec fn view(&self) -> Frame {
        Frame {
            thread_name: self.thread_name@,
            frame: self.frame,
            roots: reported(self.counters@),
            variables: self.variables@,
        }
    }
}

/// The model of a recorded region.
pub open spec fn recorded_node(counter: Counter) -> Node<TimeSource>
    decreases counter, 1nat,
{
    Node {
        name: counter.name@,
        id: counter.id@,
        timing: counter.reporter@,
        children: recorded(counter.counters@),
    }
}

/// The forest of a sequence of recorded regions.
pub open spec fn recorded(counters: Seq<Counter>) -> Seq<Node<TimeSource>>
    decreases counters, 0nat,
{
    if counters.len() == 0 {
        Seq::empty()
    } else {
        recorded(counters.drop_last()).push(recorded_node(counters.last()))
    }
}

/// The model of a reported region.
pub open spec fn reported_node(counter: ReportCounter) -> Node<Option<u64>>
    decreases counter, 1nat,
{
    Node {
        name: counter.name@,
        id: counter.id@,
        timing: counter.duration,
        children: reported(counter.counters@),
    }
}

/// The forest of a sequence of reported regions.
pub open spec fn reported(counters: Seq<ReportCounter>) -> Seq<Node<Option<u64>>>
    decreases counters, 0nat,
{
    if counters.len() == 0 {
        Seq::empty()
    } else {
        reported(counters.drop_last()).push(reported_node(counters.last()))
    }
}

/// The forest of recorded regions has one tree for each region, in order.
pub proof fn lemma_recorded(counters: Seq<Counter>)
    ensures
        recorded(counters).len() == counters.len(),
        forall|i: int| 0 <= i < counters.len() ==> (#[trigger] recorded(counters)[i]) == counters[i]@,
    decreases counters.len(),
{
    if counters.len() > 0 {
        lemma_recorded(counters.drop_last());
    }
}

/// The forest of reported regions has one tree for each region, in order.
pub proof fn lemma_reported(counters: Seq<ReportCounter>)
    ensures
        reported(counters).len() == counters.len(),
        forall|i: int| 0 <= i < counters.len() ==> (#[trigger] reported(counters)[i]) == counters[i]@,
    decreases counters.len(),
{
    if counters.len() > 0 {
        lemma_reported(counters.drop_last());
    }
}

/// `report` shows the region `counter`: the same name and id, a duration
/// that the region's time source resolves to, and children that show the
/// region's children one for one, in the same order.
pub open spec fn shows(report: Node<Option<u64>>, counter: Node<TimeSource>) -> bool
    decreases counter,
{
    &&& report.name == counter.name
    &&& report.id == counter.id
    &&& counter.timing.resolves_to(report.timing)
    &&& report.children.len() == counter.children.len()
    &&& forall|i: int|
        0 <= i < counter.children.len() ==> shows(#[trigger] report.children[i], counter.children[i])
}

/// `reports` shows the forest `counters`, tree for tree.
pub open spec fn shows_all(
    reports: Seq<Node<Option<u64>>>,
    counters: Seq<Node<TimeSource>>,
) -> bool {
    &&& reports.len() == counters.len()
    &&& forall|i: int| 0 <= i < counters.len() ==> shows(#[trigger] reports[i], counters[i])
}

/// A report keeps what was recorded: its pre-order walk, which lists every
/// region's name and id with its depth and in call order, is the walk of
/// the forest it shows.
pub proof fn lemma_report_keeps_walk(
    reports: Seq<Node<Option<u64>>>,
    counters: Seq<Node<TimeSource>>,
    depth: nat,
)
    requires
        shows_all(reports, counters),
    ensures
        preorder(reports, depth) == preorder(counters, depth),
    decreases counters, 0nat,
{
    if counters.len() > 0 {
        assert(shows_all(reports.drop_last(), counters.drop_last())) by {
            assert forall|i: int| 0 <= i < counters.drop_last().len() implies shows(
                #[trigger] reports.drop_last()[i],
                counters.drop_last()[i],
            ) by {
                assert(shows(reports[i], counters[i]));
            }
        }
        lemma_report_keeps_walk(reports.drop_last(), counters.drop_last(), depth);
        assert(shows(reports[reports.len() - 1], counters[counters.len() - 1]));
        lemma_report_node_keeps_walk(reports.last(), counters.last(), depth);
    }
}

/// The same for one tree.
pub proof fn lemma_report_node_keeps_walk(
    report: Node<Option<u64>>,
    counter: Node<TimeSource>,
    depth: nat,
)
    requires
        shows(report, counter),
    ensures
        preorder_node(report, depth) == preorder_node(counter, depth),
    decreases counter, 1nat,
{
    assert(shows_all(report.children, counter.children));
    lemma_report_keeps_walk(report.children, counter.children, depth + 1);
}

impl ReportCounter {
    /// A reported region made of its parts.
    pub fn new(
        name: String,
        id: &'static str,
        duration: Option<u64>,
        counters: Vec<ReportCounter>,
    ) -> (report: ReportCounter)
        ensures
            report@ == (Node {
                name: name@,
                id: id@,
                timing: duration,
                children: reported(counters@),
            }),
            report.name == name,
            report.id == id,
            report.duration == duration,
            report.counters == counters,
    {
        ReportCounter { name, id, duration, counters }
    }

    /// The report of a recorded region and of all regions inside it. The
    /// time source of each is asked for its duration once, parents before
    /// their children and children from first to last.
    pub fn from(counter: Counter) -> (report: ReportCounter)
        ensures
            shows(report@, counter@),
        decreases counter,
    {
        let Counter { name, id, reporter, counters } = counter;
        let mut reporter = reporter;
        let duration = reporter.duration();
        let children = ReportCounter::from_all(counters);
        proof {
            lemma_reported(children@);
            lemma_recorded(counter.counters@);
        }
        ReportCounter::new(name, id, duration, children)
    }

    /// The reports of a sequence of recorded regions, in the same order.
    pub fn from_all(counters: Vec<Counter>) -> (reports: Vec<ReportCounter>)
        ensures
            shows_all(reported(reports@), recorded(counters@)),
        decreases counters,
    {
        let mut reports: Vec<ReportCounter> = Vec::new();
        for counter in it: counters
            invariant
                it.seq() == counters@,
                reports@.len() == it.index(),
                forall|i: int|
                    0 <= i < reports@.len() ==> shows(#[trigger] reports@[i]@, counters@[i]@),
        {
            let report = ReportCounter::from(counter);
            reports.push(report);
        }
        proof {
            lemma_reported(reports@);
            lemma_recorded(counters@);
        }
        reports
    }
}

impl Clone for ReportCounter {
    fn clone(&self) -> (copy: ReportCounter)
        ensures
            copy@ == self@,
        decreases self,
    {
        let mut counters: Vec<ReportCounter> = Vec::new();
        let mut i: usize = 0;
        while i < self.counters.len()
            invariant
                i <= self.counters.len(),
                counters@.len() == i,
                forall|j: int| 0 <= j < i ==> (#[trigger] counters@[j])@ == self.counters@[j]@,
            decreases self.counters.len() - i,
        {
            let child = self.counters[i].clone();
            counters.push(child);
            i += 1;
        }
        let copy = ReportCounter {
            name: self.name.clone(),
            id: self.id,
            duration: self.duration,
            counters,
        };
        proof {
            lemma_reported(copy.counters@);
            lemma_reported(self.counters@);
            assert(reported(copy.counters@) =~= reported(self.counters@));
        }
        copy
    }
}

impl Clone for FrameReport {
    fn clone(&self) -> (copy: FrameReport)
        ensures
            copy@ == self@,
    {
        let mut counters: Vec<ReportCounter> = Vec::new();
        let mut i: usize = 0;
        while i < self.counters.len()
            invariant
                i <= self.counters.len(),
                counters@.len() == i,
                forall|j: int| 0 <= j < i ==> (#[trigger] counters@[j])@ == self.counters@[j]@,
            decreases self.counters.len() - i,
        {
            let root = self.counters[i].clone();
            counters.push(root);
            i += 1;
        }
        proof {
            lemma_reported(counters@);
            lemma_reported(self.counters@);
            assert(reported(counters@) =~= reported(self.counters@));
        }
        FrameReport {
            thread_name: self.thread_name.clone(),
            frame: self.frame,
            counters,
            variables: self.variables.clone(),
        }
    }
}

impl FrameReport {
    /// The report of what a thread recorded in one frame: the thread's
    /// name, the frame's index, the recorded regions as `ReportCounter::from`
    /// shows them, and a copy of the thread's variables.
    pub fn from_thread_data(
        thread_name: &str,
        frame: i32,
        counters: Vec<Counter>,
        variables: &Variables,
    ) -> (report: FrameReport)
        ensures
            report@.thread_name == thread_name@,
            report@.frame == frame,
            shows_all(report@.roots, recorded(counters@)),
            report@.variables == variables@,
    {
        FrameReport {
            frame,
            variables: variables.snapshot(),
            thread_name: thread_name.to_owned(),
            counters: ReportCounter::from_all(counters),
        }
    }
}

} // verus!
