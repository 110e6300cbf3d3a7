//! The mathematical model of region trees.
//!
//! A thread records regions as a forest of nodes. While regions are open, the
//! open ones form the rightmost path of that forest: the innermost open region
//! is the last child of the last child ... of the last root. Everything the
//! executable code does to a region stack is stated over the functions of this
//! module, and the module proves what they mean for any well-nested run of
//! begin and end calls.

use vstd::prelude::*;

verus! {

/// One region of a tree: its name, its call-site id, what is known of its
/// timing, and the regions that began and ended while it was open, in the
/// order in which they began.
pub struct Node<T> {
    pub name: Seq<char>,
    pub id: Seq<char>,
    pub timing: T,
    pub children: Seq<Node<T>>,
}

/// One entry of a forest's pre-order walk: a region and how deeply it is nested.
pub struct Visit {
    pub depth: nat,
    pub name: Seq<char>,
    pub id: Seq<char>,
}

/// What one thread has recorded for one kind of time source: the forest so
/// far, and how many regions are still open. The open regions are the
/// rightmost path of the forest, down to `depth`.
pub struct Regions<T> {
    pub forest: Seq<Node<T>>,
    pub depth: nat,
}

/// One call of a run: a region begins, or the innermost open region ends.
pub enum Step<T> {
    Begin { name: Seq<char>, id: Seq<char>, timing: T },
    End { timing: T },
}

/// A region that has no children yet.
pub open spec fn leaf<T>(name: Seq<char>, id: Seq<char>, timing: T) -> Node<T> {
    Node { name, id, timing, children: Seq::empty() }
}

/// The number of nodes on the rightmost path of `forest`.
pub open spec fn spine<T>(forest: Seq<Node<T>>) -> nat
    decreases forest,
{
    if forest.len() == 0 {
        0
    } else {
        1 + spine(forest.last().children)
    }
}

/// The rightmost node at `depth`, the roots being at depth 1.
pub open spec fn active<T>(forest: Seq<Node<T>>, depth: nat) -> Node<T>
    decreases depth,
{
    if depth <= 1 {
        forest.last()
    } else {
        active(forest.last().children, (depth - 1) as nat)
    }
}

/// `forest` with `node` added as the last child of the rightmost node at
/// `depth`; at depth 0 it is added as the last root.
pub open spec fn attach<T>(forest: Seq<Node<T>>, depth: nat, node: Node<T>) -> Seq<Node<T>>
    decreases depth,
{
    if depth == 0 || forest.len() == 0 {
        forest.push(node)
    } else {
        let last = forest.last();
        forest.drop_last().push(
            Node { children: attach(last.children, (depth - 1) as nat, node), ..last },
        )
    }
}

/// `forest` with the timing of the rightmost node at `depth` replaced.
pub open spec fn retime<T>(forest: Seq<Node<T>>, depth: nat, timing: T) -> Seq<Node<T>>
    decreases depth,
{
    if depth == 0 || forest.len() == 0 {
        forest
    } else if depth == 1 {
        forest.drop_last().push(Node { timing, ..forest.last() })
    } else {
        let last = forest.last();
        forest.drop_last().push(
            Node { children: retime(last.children, (depth - 1) as nat, timing), ..last },
        )
    }
}

/// The pre-order walk of `forest`, its roots being nested `depth` deep.
pub open spec fn preorder<T>(forest: Seq<Node<T>>, depth: nat) -> Seq<Visit>
    decreases forest, 0nat,
{
    if forest.len() == 0 {
        Seq::empty()
    } else {
        preorder(forest.drop_last(), depth) + preorder_node(forest.last(), depth)
    }
}

/// The pre-order walk of one tree: the node, then its children from first to last.
pub open spec fn preorder_node<T>(node: Node<T>, depth: nat) -> Seq<Visit>
    decreases node, 1nat,
{
    seq![Visit { depth, name: node.name, id: node.id }] + preorder(node.children, depth + 1)
}

impl<T> Regions<T> {
    /// Nothing recorded, nothing open.
    pub open spec fn empty() -> Regions<T> {
        Regions { forest: Seq::empty(), depth: 0 }
    }

    /// The state after `node` begins: it becomes the last child of the
    /// innermost open region, or a new root if none is open, and is then the
    /// innermost open region itself.
    pub open spec fn begin(self, node: Node<T>) -> Regions<T> {
        Regions { forest: attach(self.forest, self.depth, node), depth: self.depth + 1 }
    }

    /// The state after the innermost open region ends with `timing`: the
    /// region keeps its place, and its parent is the innermost open region
    /// again.
    pub open spec fn end(self, timing: T) -> Regions<T> {
        Regions {
            forest: retime(self.forest, self.depth, timing),
            depth: (self.depth - 1) as nat,
        }
    }

    /// The innermost open region.
    pub open spec fn innermost(self) -> Node<T> {
        active(self.forest, self.depth)
    }

    /// The open regions are a path that the forest really has.
    pub open spec fn wf(self) -> bool {
        self.depth <= spine(self.forest)
    }
}

/// The number of regions that a run leaves open: begins minus ends.
pub open spec fn open_after<T>(steps: Seq<Step<T>>) -> int
    decreases steps.len(),
{
    if steps.len() == 0 {
        0
    } else {
        match steps.last() {
            Step::Begin { .. } => open_after(steps.drop_last()) + 1,
            Step::End { .. } => open_after(steps.drop_last()) - 1,
        }
    }
}

/// No step of the run ends a region when none is open.
pub open spec fn well_nested<T>(steps: Seq<Step<T>>) -> bool
    decreases steps.len(),
{
    if steps.len() == 0 {
        true
    } else {
        &&& well_nested(steps.drop_last())
        &&& steps.last() is End ==> open_after(steps.drop_last()) > 0
    }
}

/// The state that a run reaches from the empty state.
pub open spec fn replay<T>(steps: Seq<Step<T>>) -> Regions<T>
    decreases steps.len(),
{
    if steps.len() == 0 {
        Regions::empty()
    } else {
        let before = replay(steps.drop_last());
        match steps.last() {
            Step::Begin { name, id, timing } => before.begin(leaf(name, id, timing)),
            Step::End { timing } => before.end(timing),
        }
    }
}

/// The begins of a run in call order, each with the number of regions that
/// were open when it was called.
pub open spec fn begins<T>(steps: Seq<Step<T>>) -> Seq<Visit>
    decreases steps.len(),
{
    if steps.len() == 0 {
        Seq::empty()
    } else {
        match steps.last() {
            Step::Begin { name, id, .. } => begins(steps.drop_last()).push(
                Visit { depth: open_after(steps.drop_last()) as nat, name, id },
            ),
            Step::End { .. } => begins(steps.drop_last()),
        }
    }
}

/// The walk of a forest ends with the walk of its last tree's children.
proof fn lemma_preorder_last<T>(forest: Seq<Node<T>>, depth: nat)
    requires
        forest.len() > 0,
    ensures
        preorder(forest, depth) == preorder(forest.drop_last(), depth) + seq![
            Visit { depth, name: forest.last().name, id: forest.last().id },
        ] + preorder(forest.last().children, depth + 1),
{
    let head = preorder(forest.drop_last(), depth);
    let visit = seq![Visit { depth, name: forest.last().name, id: forest.last().id }];
    let tail = preorder(forest.last().children, depth + 1);
    assert(preorder_node(forest.last(), depth) == visit + tail);
    assert(head + (visit + tail) =~= head + visit + tail);
}

/// A region that begins `depth` deep under the open path comes last in the
/// walk, at that depth, and is then the end of the rightmost path.
pub proof fn lemma_attach_preorder<T>(forest: Seq<Node<T>>, depth: nat, node: Node<T>, base: nat)
    requires
        depth <= spine(forest),
        node.children.len() == 0,
    ensures
        preorder(attach(forest, depth, node), base) == preorder(forest, base).push(
            Visit { depth: base + depth, name: node.name, id: node.id },
        ),
        spine(attach(forest, depth, node)) == depth + 1,
        active(attach(forest, depth, node), depth + 1) == node,
    decreases depth,
{
    let after = attach(forest, depth, node);
    let visit = Visit { depth: base + depth, name: node.name, id: node.id };
    if depth == 0 {
        assert(after.drop_last() =~= forest);
        assert(after.last() == node);
        assert(spine(node.children) == 0);
        assert(preorder(node.children, base + 1) =~= Seq::<Visit>::empty());
        assert(preorder_node(node, base) =~= seq![visit]);
        assert(preorder(forest, base) + seq![visit] =~= preorder(forest, base).push(visit));
    } else {
        let last = forest.last();
        let grown = attach(last.children, (depth - 1) as nat, node);
        lemma_attach_preorder(last.children, (depth - 1) as nat, node, base + 1);
        assert(after.drop_last() =~= forest.drop_last());
        assert(after.last().children == grown);
        assert(spine(after) == 1 + spine(grown));
        lemma_preorder_last(forest, base);
        lemma_preorder_last(after, base);
        let head = preorder(forest.drop_last(), base);
        let here = seq![Visit { depth: base, name: last.name, id: last.id }];
        let below = preorder(last.children, base + 1);
        assert(head + here + below.push(visit) =~= (head + here + below).push(visit));
    }
}

/// Ending a region changes neither the walk nor the rightmost path, and
/// gives the region the timing it ended with.
pub proof fn lemma_retime_preorder<T>(forest: Seq<Node<T>>, depth: nat, timing: T, base: nat)
    requires
        1 <= depth <= spine(forest),
    ensures
        preorder(retime(forest, depth, timing), base) == preorder(forest, base),
        spine(retime(forest, depth, timing)) == spine(forest),
        active(retime(forest, depth, timing), depth).timing == timing,
    decreases depth,
{
    let after = retime(forest, depth, timing);
    let last = forest.last();
    assert(after.drop_last() =~= forest.drop_last());
    lemma_preorder_last(forest, base);
    lemma_preorder_last(after, base);
    if depth > 1 {
        lemma_retime_preorder(last.children, (depth - 1) as nat, timing, base + 1);
    }
}

/// The shape that a well-nested run leaves mirrors the nesting of its calls.
///
/// Whatever the regions' timings: after a run in which no end comes without
/// an open region, the pre-order walk of the recorded forest lists exactly
/// the begins of the run, in call order, each at the depth at which it was
/// called. A region called inside another is therefore its descendant one
/// level further down, regions called one after another under the same
/// region are its children in that order, and the regions still open are
/// the rightmost path.
pub proof fn lemma_forest_mirrors_nesting<T>(steps: Seq<Step<T>>)
    requires
        well_nested(steps),
    ensures
        preorder(replay(steps).forest, 0) == begins(steps),
        replay(steps).depth == open_after(steps),
        replay(steps).wf(),
    decreases steps.len(),
{
    if steps.len() > 0 {
        let earlier = steps.drop_last();
        lemma_forest_mirrors_nesting(earlier);
        let before = replay(earlier);
        match steps.last() {
            Step::Begin { name, id, timing } => {
                lemma_attach_preorder(before.forest, before.depth, leaf(name, id, timing), 0);
            },
            Step::End { timing } => {
                lemma_retime_preorder(before.forest, before.depth, timing, 0);
            },
        }
    }
}

} // verus!
