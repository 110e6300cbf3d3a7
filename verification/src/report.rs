//! The region stack of one thread for one kind of time source.

use vstd::prelude::*;
use crate::counters::Counter;
use crate::counters::recorded;
use crate::nesting::active;
use crate::nesting::attach;
use crate::nesting::leaf;
use crate::nesting::Node;
use crate::nesting::Regions;
use crate::nesting::replay;
use crate::nesting::retime;
use crate::nesting::spine;
use crate::nesting::Step;
use crate::nesting::well_nested;
use crate::reporter::Reporter;
use crate::reporter::TimeSource;

verus! {

/// The regions that a thread has recorded since the last frame boundary:
/// the finished roots, and the stack of regions that are still open, the
/// outermost first. A region joins its parent's children when it ends.
pub struct Report {
    counters: Vec<Counter>,
    stack: Vec<Counter>,
}

/// The open regions as one tree: each open region holds its finished
/// children and then, as its last child, the region opened inside it.
spec fn chain(stack: Seq<Counter>) -> Seq<Node<TimeSource>>
    decreases stack.len(),
{
    if stack.len() == 0 {
        Seq::empty()
    } else {
        seq![
            Node {
                name: stack[0].name@,
                id: stack[0].id@,
                timing: stack[0].reporter@,
                children: recorded(stack[0].counters@) + chain(stack.skip(1)),
            },
        ]
    }
}

/// The open regions are a path of the forest, and its end is the region on
/// top of the stack.
proof fn lemma_chain_path(prefix: Seq<Node<TimeSource>>, stack: Seq<Counter>)
    ensures
        stack.len() <= spine(prefix + chain(stack)),
        stack.len() > 0 ==> ({
            let innermost = active(prefix + chain(stack), stack.len());
            &&& innermost.name == stack.last().name@
            &&& innermost.id == stack.last().id@
            &&& innermost.timing == stack.last().reporter@
            &&& innermost.children == recorded(stack.last().counters@)
        }),
    decreases stack.len(),
{
    if stack.len() > 0 {
        let forest = prefix + chain(stack);
        let inner = recorded(stack[0].counters@);
        assert(forest.last() == chain(stack)[0]);
        assert(forest.last().children == inner + chain(stack.skip(1)));
        lemma_chain_path(inner, stack.skip(1));
        if stack.len() == 1 {
            assert(chain(stack.skip(1)) =~= Seq::<Node<TimeSource>>::empty());
            assert(inner + chain(stack.skip(1)) =~= inner);
        } else {
            assert(stack.skip(1).last() == stack.last());
        }
    }
}

/// Pushing a region that has no children on the stack attaches its node
/// under the innermost open region.
proof fn lemma_chain_begin(prefix: Seq<Node<TimeSource>>, stack: Seq<Counter>, opened: Counter)
    requires
        opened.counters@.len() == 0,
    ensures
        prefix + chain(stack.push(opened)) == attach(
            prefix + chain(stack),
            stack.len(),
            leaf(opened.name@, opened.id@, opened.reporter@),
        ),
    decreases stack.len(),
{
    let node = leaf(opened.name@, opened.id@, opened.reporter@);
    let grown = stack.push(opened);
    if stack.len() == 0 {
        assert(grown.skip(1) =~= Seq::<Counter>::empty());
        assert(recorded(opened.counters@) + chain(grown.skip(1)) =~= node.children);
        assert(chain(grown) =~= seq![node]);
        assert(prefix + chain(stack) =~= prefix);
        assert(prefix + seq![node] =~= prefix.push(node));
    } else {
        let forest = prefix + chain(stack);
        let inner = recorded(stack[0].counters@);
        assert(forest.last() == chain(stack)[0]);
        assert(forest.drop_last() =~= prefix);
        assert(grown.skip(1) =~= stack.skip(1).push(opened));
        lemma_chain_begin(inner, stack.skip(1), opened);
        assert(prefix + chain(grown) =~= attach(forest, stack.len(), node));
    }
}

/// Popping the region on top of the stack and adding it, with the timing it
/// ended with, to its parent's children (or to the roots) leaves the forest
/// as it was but for that timing.
proof fn lemma_chain_end(
    prefix: Seq<Node<TimeSource>>,
    stack: Seq<Counter>,
    closed: Counter,
    parent: Counter,
)
    requires
        stack.len() > 0,
        closed.name@ == stack.last().name@,
        closed.id@ == stack.last().id@,
        closed.counters@ == stack.last().counters@,
        stack.len() > 1 ==> {
            let before = stack[stack.len() - 2];
            &&& parent.name@ == before.name@
            &&& parent.id@ == before.id@
            &&& parent.reporter@ == before.reporter@
            &&& parent.counters@ == before.counters@.push(closed)
        },
    ensures
        retime(prefix + chain(stack), stack.len(), closed.reporter@) == if stack.len() == 1 {
            prefix.push(closed@)
        } else {
            prefix + chain(stack.drop_last().drop_last().push(parent))
        },
    decreases stack.len(),
{
    let forest = prefix + chain(stack);
    let inner = recorded(stack[0].counters@);
    assert(forest.last() == chain(stack)[0]);
    assert(forest.drop_last() =~= prefix);
    if stack.len() == 1 {
        assert(chain(stack.skip(1)) =~= Seq::<Node<TimeSource>>::empty());
        assert(inner + chain(stack.skip(1)) =~= inner);
        assert(stack.last() == stack[0]);
    } else {
        let rest = stack.skip(1);
        let folded = stack.drop_last().drop_last().push(parent);
        assert(rest.last() == stack.last());
        if stack.len() == 2 {
            assert(rest.len() == 1);
            lemma_chain_end(inner, rest, closed, parent);
            assert(folded =~= seq![parent]);
            assert(folded.skip(1) =~= Seq::<Counter>::empty());
            assert(parent.counters@.drop_last() =~= stack[0].counters@);
            assert(recorded(parent.counters@) =~= inner.push(closed@));
            assert(recorded(parent.counters@) + chain(folded.skip(1)) =~= inner.push(closed@));
            assert(prefix + chain(folded) =~= retime(forest, stack.len(), closed.reporter@));
        } else {
            assert(rest[rest.len() - 2] == stack[stack.len() - 2]);
            lemma_chain_end(inner, rest, closed, parent);
            assert(folded.skip(1) =~= rest.drop_last().drop_last().push(parent));
            assert(folded[0] == stack[0]);
            assert(prefix + chain(folded) =~= retime(forest, stack.len(), closed.reporter@));
        }
    }
}

impl View for Report {
    type V = Regions<TimeSource>;

    /// The forest recorded so far, the open regions being its rightmost
    /// path, and the number of open regions.
    closed spec fn view(&self) -> Regions<TimeSource> {
        Regions { forest: recorded(self.counters@) + chain(self.stack@), depth: self.stack@.len() }
    }
}

/// `after` is `before` with a region `name`, `id` begun on `source`: the new
/// region is a leaf under the region that was innermost (a new root if none
/// was open), it is innermost now, and its time source has started.
pub open spec fn began(
    before: Regions<TimeSource>,
    after: Regions<TimeSource>,
    name: Seq<char>,
    id: Seq<char>,
    source: TimeSource,
) -> bool {
    let node = after.innermost();
    &&& node == leaf(name, id, node.timing)
    &&& node.timing.started_from(source)
    &&& after == before.begin(node)
}

/// `after` is `before` with its innermost open region ended: the forest is
/// the same but for that region's time source, which has ended, and the
/// region's parent is innermost again.
pub open spec fn ended(before: Regions<TimeSource>, after: Regions<TimeSource>) -> bool {
    let timing = active(after.forest, before.depth).timing;
    &&& before.depth > 0
    &&& timing.ended_from(before.innermost().timing)
    &&& after == before.end(timing)
}

/// A region begun after a run makes the run one step longer: the state is
/// the replay of the run with that begin added, and the run stays well
/// nested.
pub proof fn lemma_began_extends_run(
    steps: Seq<Step<TimeSource>>,
    before: Regions<TimeSource>,
    after: Regions<TimeSource>,
    name: Seq<char>,
    id: Seq<char>,
    source: TimeSource,
)
    requires
        well_nested(steps),
        replay(steps) == before,
        began(before, after, name, id, source),
    ensures
        well_nested(steps.push(Step::Begin { name, id, timing: after.innermost().timing })),
        replay(steps.push(Step::Begin { name, id, timing: after.innermost().timing })) == after,
{
    let longer = steps.push(Step::Begin { name, id, timing: after.innermost().timing });
    assert(longer.drop_last() =~= steps);
}

/// A region ended after a run makes the run one step longer: the state is
/// the replay of the run with that end added, and the run stays well nested.
pub proof fn lemma_ended_extends_run(
    steps: Seq<Step<TimeSource>>,
    before: Regions<TimeSource>,
    after: Regions<TimeSource>,
)
    requires
        well_nested(steps),
        replay(steps) == before,
        ended(before, after),
    ensures
        well_nested(steps.push(Step::End { timing: active(after.forest, before.depth).timing })),
        replay(steps.push(Step::End { timing: active(after.forest, before.depth).timing }))
            == after,
{
    let longer = steps.push(Step::End { timing: active(after.forest, before.depth).timing });
    assert(longer.drop_last() =~= steps);
    crate::nesting::lemma_forest_mirrors_nesting(steps);
}

impl Report {
    /// The open regions of a stack are always a path of its forest.
    pub proof fn lemma_wf(&self)
        ensures
            self@.wf(),
    {
        lemma_chain_path(recorded(self.counters@), self.stack@);
    }

    /// A stack with nothing recorded.
    pub fn new() -> (report: Report)
        ensures
            report@ == Regions::<TimeSource>::empty(),
    {
        let report = Report { counters: Vec::new(), stack: Vec::new() };
        assert(report@.forest =~= Seq::<Node<TimeSource>>::empty());
        report
    }

    /// Forgets everything recorded, open regions included.
    pub fn clear(&mut self)
        ensures
            final(self)@ == Regions::<TimeSource>::empty(),
    {
        self.counters.clear();
        self.stack.clear();
        assert(self@.forest =~= Seq::<Node<TimeSource>>::empty());
    }

    /// True when nothing was recorded since the stack was last cleared.
    pub fn empty(&self) -> (nothing: bool)
        ensures
            nothing == (self@.forest.len() == 0),
    {
        proof {
            crate::counters::lemma_recorded(self.counters@);
        }
        self.counters.len() == 0 && self.stack.len() == 0
    }

    /// The number of regions that are open.
    pub fn depth(&self) -> (depth: usize)
        ensures
            depth == self@.depth,
    {
        self.stack.len()
    }

    /// The id of the innermost open region, if one is open.
    pub fn active_id(&self) -> (id: Option<&'static str>)
        ensures
            self@.depth == 0 ==> id is None,
            self@.depth > 0 ==> id is Some && id->0@ == self@.innermost().id,
    {
        if self.stack.len() == 0 {
            None
        } else {
            proof {
                lemma_chain_path(recorded(self.counters@), self.stack@);
            }
            Some(self.stack[self.stack.len() - 1].id)
        }
    }

    /// Begins a region: starts `reporter` and makes the region the innermost
    /// open one.
    pub fn start_region(&mut self, name: &str, id: &'static str, reporter: Reporter)
        ensures
            began(old(self)@, final(self)@, name@, id@, reporter@),
    {
        let mut reporter = reporter;
        reporter.start();
        let opened = Counter { name: name.to_owned(), id, reporter, counters: Vec::new() };
        proof {
            lemma_chain_begin(recorded(self.counters@), self.stack@, opened);
            lemma_chain_path(recorded(self.counters@), self.stack@.push(opened));
            assert(recorded(opened.counters@) =~= Seq::<Node<TimeSource>>::empty());
        }
        self.stack.push(opened);
    }

    /// Ends the innermost open region: ends its time source and hands the
    /// region to its parent, or to the roots if it has none.
    pub fn end_region(&mut self)
        requires
            old(self)@.depth > 0,
        ensures
            ended(old(self)@, final(self)@),
    {
        let ghost roots = recorded(self.counters@);
        let ghost stack = self.stack@;
        let mut closed = self.stack.pop().unwrap();
        closed.reporter.end();
        proof {
            lemma_chain_path(roots, stack);
            crate::nesting::lemma_retime_preorder(
                old(self)@.forest,
                old(self)@.depth,
                closed.reporter@,
                0,
            );
        }
        if self.stack.len() > 0 {
            let mut parent = self.stack.pop().unwrap();
            parent.counters.push(closed);
            proof {
                lemma_chain_end(roots, stack, closed, parent);
            }
            self.stack.push(parent);
            assert(self.stack@ =~= stack.drop_last().drop_last().push(parent));
        } else {
            proof {
                lemma_chain_end(roots, stack, closed, closed);
            }
            self.counters.push(closed);
            assert(self.counters@.drop_last() =~= old(self).counters@);
        }
    }

    /// Hands out the forest of a stack on which no region is open, and
    /// leaves the stack empty.
    pub fn take_counters(&mut self) -> (counters: Vec<Counter>)
        requires
            old(self)@.depth == 0,
        ensures
            recorded(counters@) == old(self)@.forest,
            final(self)@ == Regions::<TimeSource>::empty(),
    {
        let mut counters: Vec<Counter> = Vec::new();
        core::mem::swap(&mut counters, &mut self.counters);
        assert(recorded(counters@) + chain(self.stack@) =~= recorded(counters@));
        assert(self@.forest =~= Seq::<Node<TimeSource>>::empty());
        counters
    }
}

} // verus!
