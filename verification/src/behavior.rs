//! The behavior-tree engine: an arena of composite and leaf nodes, ticked
//! from an entry node once per frame. A composite evaluates its children left
//! to right and stops at the first child whose status it cannot absorb; no
//! child is ticked more than once per evaluation.

use vstd::prelude::*;
use crate::Status;
use crate::actions::{action_tick, action_tick_spec, lemma_action_tick_wf, Action};
use crate::context::{BehaviorContext, CtxView, OutputsView};

verus! {

/// How a composite combines its children.
#[derive(Clone, Copy, Debug, PartialEq, Eq, Structural)]
pub enum NodeKind {
    /// Runs children until one fails; succeeds only if all succeed.
    Sequence,
    /// Tries children until one does not fail; fails only if all fail.
    Selector,
}

/// One arena slot. Children always sit at smaller indices than their parent:
/// the builder appends children before the composite that owns them.
#[derive(Clone, Debug)]
pub enum BtNode {
    Composite { kind: NodeKind, children: Vec<usize> },
    Leaf { action: Action },
}

impl BtNode {
    /// A ghost copy of this node with the child list as a sequence.
    pub open spec fn view_node(self) -> BtNodeView {
        match self {
            BtNode::Composite { kind, children } => BtNodeView::Composite {
                kind,
                children: children@,
            },
            BtNode::Leaf { action } => BtNodeView::Leaf { action },
        }
    }
}

/// Ghost mirror of `BtNode`.
pub ghost enum BtNodeView {
    Composite { kind: NodeKind, children: Seq<usize> },
    Leaf { action: Action },
}

/// The status a composite absorbs and moves past.
pub open spec fn pass_status(kind: NodeKind) -> Status {
    match kind {
        NodeKind::Sequence => Status::Success,
        NodeKind::Selector => Status::Failure,
    }
}

/// An arena of behavior nodes with one entry node.
#[derive(Clone, Debug)]
pub struct BehaviorTree {
    pub nodes: Vec<BtNode>,
    pub entry: usize,
}

pub open spec fn nodes_view(nodes: Seq<BtNode>) -> Seq<BtNodeView> {
    nodes.map_values(|n: BtNode| n.view_node())
}

/// Every composite's children lie strictly below it in the arena.
pub open spec fn node_wf(nodes: Seq<BtNodeView>, i: int) -> bool {
    match nodes[i] {
        BtNodeView::Composite { children, .. } => forall|k: int|
            0 <= k < children.len() ==> (#[trigger] children[k]) < i,
        BtNodeView::Leaf { .. } => true,
    }
}

pub open spec fn tree_nodes_wf(nodes: Seq<BtNodeView>) -> bool {
    forall|i: int| 0 <= i < nodes.len() ==> #[trigger] node_wf(nodes, i)
}

impl BehaviorTree {
    pub open spec fn wf(self) -> bool {
        &&& self.entry < self.nodes@.len()
        &&& tree_nodes_wf(nodes_view(self.nodes@))
    }
}

/// The context after recording that the leaf at index `i` was evaluated.
pub open spec fn push_trace(c: CtxView, i: int) -> CtxView {
    CtxView { out: OutputsView { ticked_leaves: c.out.ticked_leaves.push(i as u64), ..c.out }, ..c }
}

/// The exact effect of ticking the node at index `i`: the context afterwards
/// and the status handed to the parent.
pub open spec fn tick_node_spec(nodes: Seq<BtNodeView>, i: int, c: CtxView) -> (CtxView, Status)
    decreases i, 1int, 0int,
{
    if 0 <= i < nodes.len() {
        match nodes[i] {
            BtNodeView::Leaf { action } => {
                let r = action_tick_spec(action, c);
                (push_trace(r.0, i), r.1)
            },
            BtNodeView::Composite { kind, children } => tick_children_spec(
                nodes,
                i,
                kind,
                children,
                0,
                c,
            ),
        }
    } else {
        (c, Status::Failure)
    }
}

/// Tick the children of the composite at index `i`, starting from child `k`,
/// while each child returns the composite's pass status.
pub open spec fn tick_children_spec(
    nodes: Seq<BtNodeView>,
    i: int,
    kind: NodeKind,
    children: Seq<usize>,
    k: int,
    c: CtxView,
) -> (CtxView, Status)
    decreases i, 0int, children.len() - k,
{
    if k < 0 || k >= children.len() {
        (c, pass_status(kind))
    } else if children[k] < i {
        let r = tick_node_spec(nodes, children[k] as int, c);
        if r.1 == pass_status(kind) {
            tick_children_spec(nodes, i, kind, children, k + 1, r.0)
        } else {
            r
        }
    } else {
        (c, Status::Failure)
    }
}

/// Ticking any node preserves well-formedness and never touches the inputs.
pub proof fn lemma_tick_node_wf(nodes: Seq<BtNodeView>, i: int, c: CtxView)
    requires
        c.wf(),
    ensures
        tick_node_spec(nodes, i, c).0.wf(),
        tick_node_spec(nodes, i, c).0.inputs == c.inputs,
    decreases i, 1int, 0int,
{
    if 0 <= i < nodes.len() {
        match nodes[i] {
            BtNodeView::Leaf { action } => {
                lemma_action_tick_wf(action, c);
            },
            BtNodeView::Composite { kind, children } => {
                lemma_tick_children_wf(nodes, i, kind, children, 0, c);
            },
        }
    }
}

pub proof fn lemma_tick_children_wf(
    nodes: Seq<BtNodeView>,
    i: int,
    kind: NodeKind,
    children: Seq<usize>,
    k: int,
    c: CtxView,
)
    requires
        c.wf(),
    ensures
        tick_children_spec(nodes, i, kind, children, k, c).0.wf(),
        tick_children_spec(nodes, i, kind, children, k, c).0.inputs == c.inputs,
    decreases i, 0int, children.len() - k,
{
    if 0 <= k < children.len() && children[k] < i {
        lemma_tick_node_wf(nodes, children[k] as int, c);
        let r = tick_node_spec(nodes, children[k] as int, c);
        if r.1 == pass_status(kind) {
            lemma_tick_children_wf(nodes, i, kind, children, k + 1, r.0);
        }
    }
}

/// Tick the node at index `i` against the live context.
pub fn tick_node(tree: &BehaviorTree, i: usize, ctx: &mut BehaviorContext) -> (s: Status)
    requires
        tree.wf(),
        i < tree.nodes@.len(),
        old(ctx)@.wf(),
    ensures
        final(ctx)@ == tick_node_spec(nodes_view(tree.nodes@), i as int, old(ctx)@).0,
        s == tick_node_spec(nodes_view(tree.nodes@), i as int, old(ctx)@).1,
        final(ctx)@.wf(),
    decreases i,
{
    let ghost nv = nodes_view(tree.nodes@);
    proof {
        assert(nv[i as int] == tree.nodes@[i as int].view_node());
        lemma_tick_node_wf(nv, i as int, old(ctx)@);
    }
    match &tree.nodes[i] {
        BtNode::Leaf { action } => {
            let s = action_tick(action, ctx);
            ctx.out.ticked_leaves.push(i as u64);
            s
        },
        BtNode::Composite { kind, children } => {
            let kind = *kind;
            let n = children.len();
            let mut k: usize = 0;
            let ghost c0 = ctx@;
            proof {
                assert(node_wf(nv, i as int));
                assert(nv[i as int] == (BtNodeView::Composite { kind, children: children@ }));
                assert(tick_node_spec(nv, i as int, c0) == tick_children_spec(
                    nv,
                    i as int,
                    kind,
                    children@,
                    0,
                    c0,
                ));
            }
            loop
                invariant
                    0 <= k <= n,
                    n == children@.len(),
                    tree.wf(),
                    i < tree.nodes@.len(),
                    nv == nodes_view(tree.nodes@),
                    tree.nodes@[i as int].view_node() == (BtNodeView::Composite {
                        kind,
                        children: children@,
                    }),
                    node_wf(nv, i as int),
                    ctx@.wf(),
                    tick_node_spec(nv, i as int, c0) == tick_children_spec(
                        nv,
                        i as int,
                        kind,
                        children@,
                        k as int,
                        ctx@,
                    ),
                    c0 == old(ctx)@,
                decreases n - k,
            {
                if k >= n {
                    proof {
                        assert(tick_children_spec(nv, i as int, kind, children@, k as int, ctx@)
                            == (ctx@, pass_status(kind)));
                    }
                    return match kind {
                        NodeKind::Sequence => Status::Success,
                        NodeKind::Selector => Status::Failure,
                    };
                }
                let child = children[k];
                proof {
                    assert(children@[k as int] < i);
                    lemma_tick_node_wf(nv, child as int, ctx@);
                }
                let ghost before = ctx@;
                let s = tick_node(tree, child, ctx);
                let passes = match (s, kind) {
                    (Status::Success, NodeKind::Sequence) => true,
                    (Status::Failure, NodeKind::Selector) => true,
                    _ => false,
                };
                proof {
                    assert(passes == (s == pass_status(kind)));
                    assert(tick_children_spec(nv, i as int, kind, children@, k as int, before)
                        == if s == pass_status(kind) {
                        tick_children_spec(nv, i as int, kind, children@, k as int + 1, ctx@)
                    } else {
                        (ctx@, s)
                    });
                }
                if !passes {
                    return s;
                }
                k = k + 1;
            }
        },
    }
}

/// Tick the whole tree from its entry node. The context's evaluation trace
/// records, in order, every leaf the engine reached.
pub fn tick_tree(tree: &BehaviorTree, ctx: &mut BehaviorContext) -> (s: Status)
    requires
        tree.wf(),
        old(ctx)@.wf(),
    ensures
        final(ctx)@ == tick_node_spec(nodes_view(tree.nodes@), tree.entry as int, old(ctx)@).0,
        s == tick_node_spec(nodes_view(tree.nodes@), tree.entry as int, old(ctx)@).1,
        final(ctx)@.wf(),
{
    tick_node(tree, tree.entry, ctx)
}

/// The context after children `0 .. j` of a composite have been ticked, under
/// the hypothesis that the run got that far.
pub open spec fn run_prefix(nodes: Seq<BtNodeView>, children: Seq<usize>, j: int, c: CtxView) -> CtxView
    decreases j,
{
    if j <= 0 {
        c
    } else {
        tick_node_spec(nodes, children[j - 1] as int, run_prefix(nodes, children, j - 1, c)).0
    }
}

/// Law: a composite stops at the first child whose status is not its pass
/// status. If children `0 .. j` all pass and child `j` returns `s != pass`,
/// the composite returns `s`, and the resulting context is exactly the one
/// left by children `0 ..= j` — the children after `j` are not evaluated.
///
/// For a `Sequence` this says: a failure (or a running child) at position `j`
/// makes the sequence fail (or report running) and skips the remaining
/// children. For a `Selector`: the first success or running child is
/// returned and the remaining siblings are skipped.
pub proof fn lemma_composite_stops(
    nodes: Seq<BtNodeView>,
    i: int,
    kind: NodeKind,
    children: Seq<usize>,
    c: CtxView,
    j: int,
)
    requires
        0 <= i < nodes.len(),
        nodes[i] == (BtNodeView::Composite { kind, children }),
        node_wf(nodes, i),
        0 <= j < children.len(),
        forall|k: int|
            0 <= k < j ==> tick_node_spec(
                nodes,
                children[k] as int,
                #[trigger] run_prefix(nodes, children, k, c),
            ).1 == pass_status(kind),
        tick_node_spec(nodes, children[j] as int, run_prefix(nodes, children, j, c)).1
            != pass_status(kind),
    ensures
        tick_node_spec(nodes, i, c) == tick_node_spec(
            nodes,
            children[j] as int,
            run_prefix(nodes, children, j, c),
        ),
{
    lemma_composite_children_below(nodes, i, kind, children);
    lemma_children_stop_at(nodes, i, kind, children, 0, j, c);
}

/// Under well-formedness, a composite's children all lie below it.
proof fn lemma_composite_children_below(
    nodes: Seq<BtNodeView>,
    i: int,
    kind: NodeKind,
    children: Seq<usize>,
)
    requires
        0 <= i < nodes.len(),
        nodes[i] == (BtNodeView::Composite { kind, children }),
        node_wf(nodes, i),
    ensures
        forall|m: int| 0 <= m < children.len() ==> (#[trigger] children[m]) < i,
{
    assert forall|m: int| 0 <= m < children.len() implies (#[trigger] children[m]) < i by {
        match nodes[i] {
            BtNodeView::Composite { kind: k2, children: ch2 } => {
                assert(ch2 == children);
                assert(ch2[m] < i);
            },
            BtNodeView::Leaf { .. } => {
                assert(false);
            },
        }
    }
}

/// Law: a composite whose children all pass returns its pass status, with the
/// context left by the full run of its children. For a `Sequence` this is the
/// all-children-succeed case; for a `Selector` the all-fail case.
pub proof fn lemma_composite_exhausts(
    nodes: Seq<BtNodeView>,
    i: int,
    kind: NodeKind,
    children: Seq<usize>,
    c: CtxView,
)
    requires
        0 <= i < nodes.len(),
        nodes[i] == (BtNodeView::Composite { kind, children }),
        node_wf(nodes, i),
        forall|k: int|
            0 <= k < children.len() ==> tick_node_spec(
                nodes,
                children[k] as int,
                #[trigger] run_prefix(nodes, children, k, c),
            ).1 == pass_status(kind),
    ensures
        tick_node_spec(nodes, i, c) == (
            run_prefix(nodes, children, children.len() as int, c),
            pass_status(kind),
        ),
{
    lemma_composite_children_below(nodes, i, kind, children);
    lemma_children_exhaust_at(nodes, i, kind, children, 0, c);
}

proof fn lemma_children_stop_at(
    nodes: Seq<BtNodeView>,
    i: int,
    kind: NodeKind,
    children: Seq<usize>,
    k: int,
    j: int,
    c: CtxView,
)
    requires
        0 <= i < nodes.len(),
        forall|m: int| 0 <= m < children.len() ==> (#[trigger] children[m]) < i,
        0 <= k <= j < children.len(),
        forall|m: int|
            0 <= m < j ==> tick_node_spec(
                nodes,
                children[m] as int,
                #[trigger] run_prefix(nodes, children, m, c),
            ).1 == pass_status(kind),
        tick_node_spec(nodes, children[j] as int, run_prefix(nodes, children, j, c)).1
            != pass_status(kind),
    ensures
        tick_children_spec(nodes, i, kind, children, k, run_prefix(nodes, children, k, c))
            == tick_node_spec(nodes, children[j] as int, run_prefix(nodes, children, j, c)),
    decreases j - k,
{
    assert(children[k] < i);
    if k == j {
        assert(tick_children_spec(nodes, i, kind, children, k, run_prefix(nodes, children, k, c))
            == tick_node_spec(nodes, children[j] as int, run_prefix(nodes, children, j, c)));
    } else {
        assert(tick_node_spec(nodes, children[k] as int, run_prefix(nodes, children, k, c)).1
            == pass_status(kind));
        assert(run_prefix(nodes, children, k + 1, c) == tick_node_spec(
            nodes,
            children[k] as int,
            run_prefix(nodes, children, k, c),
        ).0);
        lemma_children_stop_at(nodes, i, kind, children, k + 1, j, c);
    }
}

proof fn lemma_children_exhaust_at(
    nodes: Seq<BtNodeView>,
    i: int,
    kind: NodeKind,
    children: Seq<usize>,
    k: int,
    c: CtxView,
)
    requires
        0 <= i < nodes.len(),
        forall|m: int| 0 <= m < children.len() ==> (#[trigger] children[m]) < i,
        0 <= k <= children.len(),
        forall|m: int|
            0 <= m < children.len() ==> tick_node_spec(
                nodes,
                children[m] as int,
                #[trigger] run_prefix(nodes, children, m, c),
            ).1 == pass_status(kind),
    ensures
        tick_children_spec(nodes, i, kind, children, k, run_prefix(nodes, children, k, c)) == (
            run_prefix(nodes, children, children.len() as int, c),
            pass_status(kind),
        ),
    decreases children.len() - k,
{
    if k == children.len() {
    } else {
        assert(children[k] < i);
        assert(run_prefix(nodes, children, k + 1, c) == tick_node_spec(
            nodes,
            children[k] as int,
            run_prefix(nodes, children, k, c),
        ).0);
        lemma_children_exhaust_at(nodes, i, kind, children, k + 1, c);
    }
}

} // verus!
