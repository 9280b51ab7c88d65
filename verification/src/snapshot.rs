//! The snapshot builder: a pre-order depth-first walk of the retained tree
//! that captures one record per inspectable node while leaving out the
//! inspector's own panel.
//!
//! The host places a synthetic two-level wrapper above both the inspected
//! application's root and the inspector panel's root, so both sit at
//! traversal depth [`DUAL_ROOT_DEPTH`].  The first node met at that depth
//! is the application root; the second is the panel's own root.  From the
//! moment the panel root is met, the walk continues (the depth-first order
//! must be preserved) but records nothing more — the panel never shows
//! itself.  Only nodes that carry a renderer-facing `ElementId` are
//! recorded at all.

use vstd::prelude::*;

use crate::registry::{distinct_ids, record_wf, records_view, records_wf, NodeRecord, RecordModel};
use crate::tree::{forest_ids, forest_listeners_wf, node_height, node_ids, node_listeners_wf, tree_wf, ElementId, NodeKind, NodeId, StateAttr, TreeNode};
use crate::tree::lemma_forest_height_bounds;

verus! {

/// The traversal depth at which both the application root and the
/// inspector panel root sit, under the host's synthetic wrapper.
pub const DUAL_ROOT_DEPTH: usize = 2;

/// The two traversal flags: whether the application root (the first node
/// at [`DUAL_ROOT_DEPTH`]) has been met, and whether the inspector panel
/// root (the second) has been met.  Once the second is set, nothing more
/// is recorded.
#[derive(Clone, Copy, PartialEq, Eq, Structural, Debug)]
pub struct WalkFlags {
    pub root_found: bool,
    pub inspector_found: bool,
}

/// Flags at the start of a walk: nothing met yet.
pub open spec fn start_flags() -> WalkFlags {
    WalkFlags { root_found: false, inspector_found: false }
}

/// How visiting one node at `depth` advances the flags.
pub open spec fn step_flags(flags: WalkFlags, depth: nat) -> WalkFlags {
    if depth == DUAL_ROOT_DEPTH as nat {
        if !flags.root_found {
            WalkFlags { root_found: true, inspector_found: flags.inspector_found }
        } else {
            WalkFlags { root_found: true, inspector_found: true }
        }
    } else {
        flags
    }
}

/// The record captured for a node that carries `eid`, visited at `depth`.
/// Element nodes report their tag and listener names; text nodes the
/// sentinel tag `"text"` and their literal text; placeholder nodes the
/// sentinel tag `"placeholder"`, no text and no listeners.
pub open spec fn record_of(node: TreeNode, depth: nat, eid: ElementId) -> RecordModel {
    match node.kind {
        NodeKind::Element { tag, listeners } => RecordModel {
            id: node.id,
            element_id: eid,
            tag: tag@,
            depth,
            text: Option::None,
            listeners: Option::Some(listeners@.map_values(|s: String| s@)),
            resolved_state: node.resolved_state@.map_values(|a: StateAttr| a@),
        },
        NodeKind::Text { text } => RecordModel {
            id: node.id,
            element_id: eid,
            tag: "text"@,
            depth,
            text: Option::Some(text@),
            listeners: Option::None,
            resolved_state: node.resolved_state@.map_values(|a: StateAttr| a@),
        },
        NodeKind::Placeholder => RecordModel {
            id: node.id,
            element_id: eid,
            tag: "placeholder"@,
            depth,
            text: Option::None,
            listeners: Option::None,
            resolved_state: node.resolved_state@.map_values(|a: StateAttr| a@),
        },
    }
}

/// Pre-order walk of one subtree: the records it contributes and the flags
/// it leaves behind.
pub open spec fn walk(node: TreeNode, depth: nat, flags: WalkFlags) -> (Seq<RecordModel>, WalkFlags)
    decreases node,
{
    let f1 = step_flags(flags, depth);
    let own: Seq<RecordModel> = match node.element_id {
        Option::Some(eid) => if !f1.inspector_found {
            seq![record_of(node, depth, eid)]
        } else {
            Seq::empty()
        },
        Option::None => Seq::empty(),
    };
    let rest = walk_forest(node.children@, depth + 1, f1);
    (own + rest.0, rest.1)
}

/// Pre-order walk of a sequence of sibling subtrees, left to right,
/// threading the flags through.
pub open spec fn walk_forest(nodes: Seq<TreeNode>, depth: nat, flags: WalkFlags) -> (Seq<RecordModel>, WalkFlags)
    decreases nodes,
{
    if nodes.len() == 0 {
        (Seq::empty(), flags)
    } else {
        let head = walk(nodes[0], depth, flags);
        let tail = walk_forest(nodes.drop_first(), depth, head.1);
        (head.0 + tail.0, tail.1)
    }
}

/// What one full snapshot of the tree captures: the walk from the root at
/// depth 0 with nothing met yet.
pub open spec fn snapshot_of(root: TreeNode) -> Seq<RecordModel> {
    walk(root, 0, start_flags()).0
}

/// `b` has every flag that `a` has.
pub open spec fn flags_le(a: WalkFlags, b: WalkFlags) -> bool {
    &&& a.root_found ==> b.root_found
    &&& a.inspector_found ==> b.inspector_found
}

/// The flags only ever accumulate: a walk never clears one.
pub proof fn lemma_walk_flags_monotone(node: TreeNode, depth: nat, flags: WalkFlags)
    ensures
        flags_le(flags, walk(node, depth, flags).1),
    decreases node,
{
    lemma_forest_flags_monotone(node.children@, depth + 1, step_flags(flags, depth));
}

pub proof fn lemma_forest_flags_monotone(nodes: Seq<TreeNode>, depth: nat, flags: WalkFlags)
    ensures
        flags_le(flags, walk_forest(nodes, depth, flags).1),
    decreases nodes,
{
    if nodes.len() > 0 {
        lemma_walk_flags_monotone(nodes[0], depth, flags);
        lemma_forest_flags_monotone(nodes.drop_first(), depth, walk(nodes[0], depth, flags).1);
    }
}

/// Once the inspector panel root has been met, a walk records nothing.
pub proof fn lemma_walk_excluded(node: TreeNode, depth: nat, flags: WalkFlags)
    requires
        flags.inspector_found,
    ensures
        walk(node, depth, flags).0 =~= Seq::<RecordModel>::empty(),
    decreases node,
{
    lemma_forest_excluded(node.children@, depth + 1, step_flags(flags, depth));
}

pub proof fn lemma_forest_excluded(nodes: Seq<TreeNode>, depth: nat, flags: WalkFlags)
    requires
        flags.inspector_found,
    ensures
        walk_forest(nodes, depth, flags).0 =~= Seq::<RecordModel>::empty(),
    decreases nodes,
{
    if nodes.len() > 0 {
        lemma_walk_excluded(nodes[0], depth, flags);
        lemma_walk_flags_monotone(nodes[0], depth, flags);
        lemma_forest_excluded(nodes.drop_first(), depth, walk(nodes[0], depth, flags).1);
    }
}

/// Below the dual-root depth the flags can no longer change.
pub proof fn lemma_walk_deep_flags(node: TreeNode, depth: nat, flags: WalkFlags)
    requires
        depth > DUAL_ROOT_DEPTH as nat,
    ensures
        walk(node, depth, flags).1 == flags,
    decreases node,
{
    lemma_forest_deep_flags(node.children@, depth + 1, step_flags(flags, depth));
}

pub proof fn lemma_forest_deep_flags(nodes: Seq<TreeNode>, depth: nat, flags: WalkFlags)
    requires
        depth > DUAL_ROOT_DEPTH as nat,
    ensures
        walk_forest(nodes, depth, flags).1 == flags,
    decreases nodes,
{
    if nodes.len() > 0 {
        lemma_walk_deep_flags(nodes[0], depth, flags);
        lemma_forest_deep_flags(nodes.drop_first(), depth, walk(nodes[0], depth, flags).1);
    }
}

/// Every identity a walk records belongs to the subtree it walked.
pub proof fn lemma_walk_ids_in_tree(node: TreeNode, depth: nat, flags: WalkFlags)
    ensures
        forall|i: int|
            0 <= i < walk(node, depth, flags).0.len()
                ==> node_ids(node).contains(#[trigger] walk(node, depth, flags).0[i].id),
    decreases node,
{
    let f1 = step_flags(flags, depth);
    let rest = walk_forest(node.children@, depth + 1, f1);
    lemma_forest_ids_in_tree(node.children@, depth + 1, f1);
    assert forall|i: int| 0 <= i < walk(node, depth, flags).0.len()
        implies node_ids(node).contains(#[trigger] walk(node, depth, flags).0[i].id) by {
        let own_len = walk(node, depth, flags).0.len() - rest.0.len();
        if i < own_len {
            assert(walk(node, depth, flags).0[i].id == node.id);
            assert(node_ids(node)[0] == node.id);
        } else {
            assert(walk(node, depth, flags).0[i] == rest.0[i - own_len]);
            let ids = forest_ids(node.children@);
            assert(ids.contains(rest.0[i - own_len].id));
            let w = choose|w: int| 0 <= w < ids.len() && ids[w] == rest.0[i - own_len].id;
            assert(node_ids(node)[w + 1] == ids[w]);
        }
    }
}

pub proof fn lemma_forest_ids_in_tree(nodes: Seq<TreeNode>, depth: nat, flags: WalkFlags)
    ensures
        forall|i: int|
            0 <= i < walk_forest(nodes, depth, flags).0.len()
                ==> forest_ids(nodes).contains(#[trigger] walk_forest(nodes, depth, flags).0[i].id),
    decreases nodes,
{
    if nodes.len() > 0 {
        let head = walk(nodes[0], depth, flags);
        let tail = walk_forest(nodes.drop_first(), depth, head.1);
        lemma_walk_ids_in_tree(nodes[0], depth, flags);
        lemma_forest_ids_in_tree(nodes.drop_first(), depth, head.1);
        assert forall|i: int| 0 <= i < walk_forest(nodes, depth, flags).0.len()
            implies forest_ids(nodes).contains(
                #[trigger] walk_forest(nodes, depth, flags).0[i].id) by {
            let here = node_ids(nodes[0]);
            let there = forest_ids(nodes.drop_first());
            if i < head.0.len() {
                assert(here.contains(head.0[i].id));
                let w = choose|w: int| 0 <= w < here.len() && here[w] == head.0[i].id;
                assert(forest_ids(nodes)[w] == here[w]);
            } else {
                assert(there.contains(tail.0[i - head.0.len()].id));
                let w = choose|w: int|
                    0 <= w < there.len() && there[w] == tail.0[i - head.0.len()].id;
                assert(forest_ids(nodes)[here.len() + w] == there[w]);
            }
        }
    }
}

/// A walk of nodes whose listener names are sets yields records whose
/// listener names are sets: the captured listener sequence never holds a
/// name twice.
pub proof fn lemma_walk_records_wf(node: TreeNode, depth: nat, flags: WalkFlags)
    requires
        node_listeners_wf(node),
    ensures
        records_wf(walk(node, depth, flags).0),
    decreases node,
{
    let f1 = step_flags(flags, depth);
    let out = walk(node, depth, flags).0;
    let rest = walk_forest(node.children@, depth + 1, f1);
    lemma_forest_records_wf(node.children@, depth + 1, f1);
    let own_len = out.len() - rest.0.len();
    assert forall|i: int| 0 <= i < out.len() implies record_wf(#[trigger] out[i]) by {
        if i < own_len {
            match node.element_id {
                Option::Some(eid) => {
                    assert(out[i] == record_of(node, depth, eid));
                    assert(record_wf(record_of(node, depth, eid)));
                },
                Option::None => {},
            }
        } else {
            assert(out[i] == rest.0[i - own_len]);
        }
    }
}

pub proof fn lemma_forest_records_wf(nodes: Seq<TreeNode>, depth: nat, flags: WalkFlags)
    requires
        forest_listeners_wf(nodes),
    ensures
        records_wf(walk_forest(nodes, depth, flags).0),
    decreases nodes,
{
    if nodes.len() > 0 {
        let head = walk(nodes[0], depth, flags);
        let tail = walk_forest(nodes.drop_first(), depth, head.1);
        let out = walk_forest(nodes, depth, flags).0;
        lemma_walk_records_wf(nodes[0], depth, flags);
        lemma_forest_records_wf(nodes.drop_first(), depth, head.1);
        assert forall|i: int| 0 <= i < out.len() implies record_wf(#[trigger] out[i]) by {
            if i < head.0.len() {
                assert(out[i] == head.0[i]);
            } else {
                assert(out[i] == tail.0[i - head.0.len()]);
            }
        }
    }
}

/// In a fresh snapshot of a well-formed tree, every record's listener
/// names are pairwise distinct.
pub proof fn lemma_snapshot_records_wf(root: TreeNode)
    requires
        tree_wf(root),
    ensures
        records_wf(snapshot_of(root)),
{
    lemma_walk_records_wf(root, 0, start_flags());
}

/// When the tree's identities are pairwise distinct, so are the identities
/// of the records a walk captures.
pub proof fn lemma_walk_distinct(node: TreeNode, depth: nat, flags: WalkFlags)
    requires
        node_ids(node).no_duplicates(),
    ensures
        distinct_ids(walk(node, depth, flags).0),
    decreases node,
{
    let f1 = step_flags(flags, depth);
    let out = walk(node, depth, flags).0;
    let rest = walk_forest(node.children@, depth + 1, f1);
    let ids = forest_ids(node.children@);
    assert(forall|w: int| 0 <= w < ids.len() ==> node_ids(node)[w + 1] == ids[w]);
    assert(ids.no_duplicates());
    lemma_forest_distinct(node.children@, depth + 1, f1);
    lemma_forest_ids_in_tree(node.children@, depth + 1, f1);
    let own_len = out.len() - rest.0.len();
    assert forall|i: int, j: int| 0 <= i < j < out.len() implies out[i].id != out[j].id by {
        if i < own_len {
            // The node's own record comes first; its identity heads the
            // pre-order and cannot recur among the children's identities.
            assert(out[i].id == node.id);
            assert(ids.contains(out[j].id));
            let w = choose|w: int| 0 <= w < ids.len() && ids[w] == out[j].id;
            assert(node_ids(node)[0] == node.id);
            assert(node_ids(node)[w + 1] == out[j].id);
        } else {
            assert(out[i] == rest.0[i - own_len]);
            assert(out[j] == rest.0[j - own_len]);
        }
    }
}

pub proof fn lemma_forest_distinct(nodes: Seq<TreeNode>, depth: nat, flags: WalkFlags)
    requires
        forest_ids(nodes).no_duplicates(),
    ensures
        distinct_ids(walk_forest(nodes, depth, flags).0),
    decreases nodes,
{
    if nodes.len() > 0 {
        let head = walk(nodes[0], depth, flags);
        let tail = walk_forest(nodes.drop_first(), depth, head.1);
        let out = walk_forest(nodes, depth, flags).0;
        let here = node_ids(nodes[0]);
        let there = forest_ids(nodes.drop_first());
        assert(forall|w: int| 0 <= w < here.len() ==> forest_ids(nodes)[w] == here[w]);
        assert(forall|w: int|
            0 <= w < there.len() ==> forest_ids(nodes)[here.len() + w] == there[w]);
        assert(here.no_duplicates());
        assert(there.no_duplicates());
        lemma_walk_distinct(nodes[0], depth, flags);
        lemma_forest_distinct(nodes.drop_first(), depth, head.1);
        lemma_walk_ids_in_tree(nodes[0], depth, flags);
        lemma_forest_ids_in_tree(nodes.drop_first(), depth, head.1);
        assert forall|i: int, j: int| 0 <= i < j < out.len() implies out[i].id != out[j].id by {
            if i < head.0.len() && j >= head.0.len() {
                // One identity from the first subtree, one from its
                // siblings: distinct because the pre-order of the whole
                // forest has no duplicates.
                assert(here.contains(out[i].id));
                assert(there.contains(out[j].id));
                let wi = choose|w: int| 0 <= w < here.len() && here[w] == out[i].id;
                let wj = choose|w: int| 0 <= w < there.len() && there[w] == out[j].id;
                assert(forest_ids(nodes)[wi] == out[i].id);
                assert(forest_ids(nodes)[here.len() + wj] == out[j].id);
            } else if i >= head.0.len() {
                assert(out[i] == tail.0[i - head.0.len()]);
                assert(out[j] == tail.0[j - head.0.len()]);
            } else {
                assert(out[i] == head.0[i]);
                assert(out[j] == head.0[j]);
            }
        }
    }
}

/// A fresh snapshot never carries two records with the same identity.
pub proof fn lemma_snapshot_ids_distinct(root: TreeNode)
    requires
        tree_wf(root),
    ensures
        distinct_ids(snapshot_of(root)),
{
    lemma_walk_distinct(root, 0, start_flags());
}

/// Under the host's dual-root wrapper — the root has one child, and that
/// child's subtrees start with the application root followed by the
/// inspector panel root — every record of a snapshot stems from the
/// wrapper itself or from the application root's subtree.
pub proof fn lemma_snapshot_sources(root: TreeNode)
    requires
        root.children@.len() == 1,
        root.children@[0].children@.len() >= 2,
    ensures
        forall|i: int|
            0 <= i < snapshot_of(root).len() ==> (#[trigger] snapshot_of(root)[i].id == root.id
                || snapshot_of(root)[i].id == root.children@[0].id
                || node_ids(root.children@[0].children@[0]).contains(snapshot_of(root)[i].id)),
{
    let f0 = start_flags();
    let wrapper = root.children@[0];
    let kids = wrapper.children@;
    let c0 = kids[0];
    let panel = kids[1];
    let sibs = kids.drop_first();

    assert(step_flags(f0, 0) == f0);
    assert(step_flags(f0, 1) == f0);
    let wrap_forest = walk_forest(root.children@, 1, f0);
    let wwalk = walk(wrapper, 1, f0);
    assert(root.children@.drop_first() =~= Seq::<TreeNode>::empty());
    assert(wrap_forest.0 =~= wwalk.0) by {
        reveal_with_fuel(walk_forest, 3);
    }

    // The first subtree at the dual-root depth: its walk marks the
    // application root as found and leaves the flags at that.
    let c0walk = walk(c0, 2, f0);
    let f_mid = step_flags(f0, 2);
    assert(f_mid == WalkFlags { root_found: true, inspector_found: false });
    lemma_forest_deep_flags(c0.children@, 3, f_mid);
    assert(c0walk.1 == f_mid);

    // The second subtree is the panel: meeting it sets the exclusion flag,
    // so neither it nor anything after it records anything.
    assert(sibs[0] == panel);
    let pwalk = walk(panel, 2, f_mid);
    assert(step_flags(f_mid, 2).inspector_found);
    lemma_forest_excluded(panel.children@, 3, step_flags(f_mid, 2));
    assert(pwalk.0 =~= Seq::<RecordModel>::empty());
    lemma_forest_flags_monotone(panel.children@, 3, step_flags(f_mid, 2));
    assert(pwalk.1.inspector_found);
    lemma_forest_excluded(sibs.drop_first(), 2, pwalk.1);
    assert(walk_forest(sibs, 2, f_mid).0 =~= Seq::<RecordModel>::empty());

    let kid_forest = walk_forest(kids, 2, f0);
    assert(kid_forest.0 =~= c0walk.0);

    lemma_walk_ids_in_tree(c0, 2, f0);

    // Put the pieces back together: the snapshot is the root's own record,
    // the wrapper's own record, then what the application subtree yields.
    let snap = snapshot_of(root);
    let own0_len = snap.len() - wrap_forest.0.len();
    let own1_len = wwalk.0.len() - kid_forest.0.len();
    assert forall|i: int| 0 <= i < snap.len() implies (#[trigger] snap[i].id == root.id
        || snap[i].id == wrapper.id || node_ids(c0).contains(snap[i].id)) by {
        if i < own0_len {
            match root.element_id {
                Option::Some(e) => {
                    assert(snap[i] == record_of(root, 0, e));
                },
                Option::None => {},
            }
        } else {
            assert(snap[i] == wrap_forest.0[i - own0_len]);
            assert(wrap_forest.0[i - own0_len] == wwalk.0[i - own0_len]);
            let j = i - own0_len;
            if j < own1_len {
                match wrapper.element_id {
                    Option::Some(e) => {
                        assert(wwalk.0[j] == record_of(wrapper, 1, e));
                    },
                    Option::None => {},
                }
            } else {
                assert(wwalk.0[j] == kid_forest.0[j - own1_len]);
                assert(kid_forest.0[j - own1_len] == c0walk.0[j - own1_len]);
            }
        }
    }
}

/// Self-exclusion: under the dual-root wrapper, no record of a snapshot
/// carries an identity from the inspector panel root's subtree — the
/// panel never shows itself, however deep its own nodes go.
pub proof fn lemma_self_exclusion(root: TreeNode)
    requires
        tree_wf(root),
        root.children@.len() == 1,
        root.children@[0].children@.len() >= 2,
    ensures
        forall|i: int|
            0 <= i < snapshot_of(root).len()
                ==> !node_ids(root.children@[0].children@[1]).contains(
                #[trigger] snapshot_of(root)[i].id),
{
    let wrapper = root.children@[0];
    let kids = wrapper.children@;
    let c0 = kids[0];
    let panel = kids[1];
    let sibs = kids.drop_first();
    let rest = forest_ids(sibs.drop_first());

    lemma_snapshot_sources(root);

    // Lay the tree's pre-order identities out flat: the root, the wrapper,
    // the application subtree, the panel subtree, then any later siblings.
    assert(sibs[0] == panel);
    assert(forest_ids(sibs) == node_ids(panel) + rest);
    assert(root.children@.drop_first() =~= Seq::<TreeNode>::empty());
    let flat = seq![root.id, wrapper.id] + node_ids(c0) + node_ids(panel) + rest;
    assert(node_ids(root) =~= flat) by {
        reveal_with_fuel(forest_ids, 3);
        assert(forest_ids(root.children@) == node_ids(wrapper) + forest_ids(
            root.children@.drop_first(),
        ));
        assert(forest_ids(root.children@.drop_first()) =~= Seq::<NodeId>::empty());
        assert(forest_ids(kids) == node_ids(c0) + forest_ids(sibs));
    }

    let c0n = node_ids(c0).len();
    let pn = node_ids(panel).len();
    assert forall|i: int| 0 <= i < snapshot_of(root).len()
        implies !node_ids(panel).contains(#[trigger] snapshot_of(root)[i].id) by {
        let id = snapshot_of(root)[i].id;
        if node_ids(panel).contains(id) {
            let p = choose|p: int| 0 <= p < pn && node_ids(panel)[p] == id;
            assert(flat[2 + c0n + p] == id);
            assert(flat[0] == root.id);
            assert(flat[1] == wrapper.id);
            if id == root.id {
                assert(node_ids(root)[0] == node_ids(root)[2 + c0n + p]);
                assert(false);
            } else if id == wrapper.id {
                assert(node_ids(root)[1] == node_ids(root)[2 + c0n + p]);
                assert(false);
            } else {
                assert(node_ids(c0).contains(id));
                let w = choose|w: int| 0 <= w < c0n && node_ids(c0)[w] == id;
                assert(flat[2 + w] == id);
                assert(node_ids(root)[2 + w] == node_ids(root)[2 + c0n + p]);
                assert(false);
            }
        }
    }
}

/// Walking one more sibling appends that sibling's records.
pub proof fn lemma_walk_forest_snoc(nodes: Seq<TreeNode>, last: TreeNode, depth: nat, flags: WalkFlags)
    ensures
        ({
            let prefix = walk_forest(nodes, depth, flags);
            let there = walk(last, depth, prefix.1);
            walk_forest(nodes.push(last), depth, flags).0 =~= prefix.0 + there.0
                && walk_forest(nodes.push(last), depth, flags).1 == there.1
        }),
    decreases nodes,
{
    let whole = nodes.push(last);
    if nodes.len() == 0 {
        reveal_with_fuel(walk_forest, 3);
        assert(whole[0] == last);
        assert(whole.drop_first() =~= Seq::<TreeNode>::empty());
        assert(walk_forest(whole, depth, flags).0 =~= walk(last, depth, flags).0);
    } else {
        let head = walk(nodes[0], depth, flags);
        let mid = walk_forest(nodes.drop_first(), depth, head.1);
        let there = walk(last, depth, mid.1);
        assert(whole[0] == nodes[0]);
        assert(whole.drop_first() =~= nodes.drop_first().push(last));
        lemma_walk_forest_snoc(nodes.drop_first(), last, depth, head.1);
        assert(walk_forest(whole.drop_first(), depth, head.1).0 =~= mid.0 + there.0);
        assert(walk_forest(whole, depth, flags).0 == head.0 + walk_forest(
            whole.drop_first(),
            depth,
            head.1,
        ).0);
        vstd::seq_lib::lemma_concat_associative(head.0, mid.0, there.0);
        assert(walk_forest(whole, depth, flags).0 =~= (head.0 + mid.0) + there.0);
    }
}

/// Clones a vector of strings, element for element.
fn clone_strings(v: &Vec<String>) -> (out: Vec<String>)
    ensures
        out@ == v@,
{
    let mut out: Vec<String> = Vec::new();
    let n = v.len();
    let mut i: usize = 0;
    while i < n
        invariant
            i <= n,
            n == v@.len(),
            out@ =~= v@.subrange(0, i as int),
        decreases n - i,
    {
        out.push(v[i].clone());
        i = i + 1;
    }
    proof {
        assert(v@.subrange(0, n as int) =~= v@);
    }
    out
}

/// Clones a node's resolved attributes, pair for pair.
fn clone_attrs(v: &Vec<StateAttr>) -> (out: Vec<StateAttr>)
    ensures
        out@ == v@,
{
    let mut out: Vec<StateAttr> = Vec::new();
    let n = v.len();
    let mut i: usize = 0;
    while i < n
        invariant
            i <= n,
            n == v@.len(),
            out@ =~= v@.subrange(0, i as int),
        decreases n - i,
    {
        let attr = StateAttr { name: v[i].name.clone(), value: v[i].value.clone() };
        proof {
            assert(attr == v@[i as int]);
        }
        out.push(attr);
        i = i + 1;
    }
    proof {
        assert(v@.subrange(0, n as int) =~= v@);
    }
    out
}

/// Captures the record for one node, exactly as [`record_of`] describes it.
fn make_record(node: &TreeNode, depth: usize, eid: ElementId) -> (r: NodeRecord)
    ensures
        r@ == record_of(*node, depth as nat, eid),
{
    match &node.kind {
        NodeKind::Element { tag, listeners } => NodeRecord {
            id: node.id,
            element_id: eid,
            tag: tag.clone(),
            depth,
            text: None,
            listeners: Some(clone_strings(listeners)),
            resolved_state: clone_attrs(&node.resolved_state),
        },
        NodeKind::Text { text } => NodeRecord {
            id: node.id,
            element_id: eid,
            tag: String::from_str("text"),
            depth,
            text: Some(text.clone()),
            listeners: None,
            resolved_state: clone_attrs(&node.resolved_state),
        },
        NodeKind::Placeholder => NodeRecord {
            id: node.id,
            element_id: eid,
            tag: String::from_str("placeholder"),
            depth,
            text: None,
            listeners: None,
            resolved_state: clone_attrs(&node.resolved_state),
        },
    }
}

/// The walking state: the two flags and the records gathered so far.
struct SnapshotBuilder {
    root_found: bool,
    inspector_found: bool,
    out: Vec<NodeRecord>,
}

impl SnapshotBuilder {
    spec fn flags(&self) -> WalkFlags {
        WalkFlags { root_found: self.root_found, inspector_found: self.inspector_found }
    }

    /// Visits `node` and its subtree in pre-order, appending exactly the
    /// records that the specification walk captures.
    fn visit(&mut self, node: &TreeNode, depth: usize)
        requires
            depth + node_height(*node) <= usize::MAX,
        ensures
            records_view(final(self).out@) == records_view(old(self).out@) + walk(
                *node,
                depth as nat,
                old(self).flags(),
            ).0,
            final(self).flags() == walk(*node, depth as nat, old(self).flags()).1,
        decreases *node,
    {
        let ghost pre = *old(self);
        let ghost f1 = step_flags(pre.flags(), depth as nat);

        if depth == DUAL_ROOT_DEPTH {
            if !self.root_found {
                self.root_found = true;
            } else {
                self.inspector_found = true;
            }
        }
        assert(self.flags() == f1);

        if !self.inspector_found {
            if let Some(eid) = node.element_id {
                let rec = make_record(node, depth, eid);
                self.out.push(rec);
            }
        }
        let ghost own = walk(*node, depth as nat, pre.flags()).0.subrange(
            0,
            walk(*node, depth as nat, pre.flags()).0.len() - walk_forest(
                node.children@,
                depth as nat + 1,
                f1,
            ).0.len(),
        );
        proof {
            assert(records_view(self.out@) =~= records_view(pre.out@) + own);
        }

        let n = node.children.len();
        let mut i: usize = 0;
        while i < n
            invariant
                i <= n,
                n == node.children@.len(),
                depth + node_height(*node) <= usize::MAX,
                depth < usize::MAX,
                records_view(self.out@) =~= records_view(pre.out@) + own + walk_forest(
                    node.children@.subrange(0, i as int),
                    depth as nat + 1,
                    f1,
                ).0,
                self.flags() == walk_forest(
                    node.children@.subrange(0, i as int),
                    depth as nat + 1,
                    f1,
                ).1,
            decreases n - i,
        {
            proof {
                lemma_forest_height_bounds(node.children@, i as int);
            }
            self.visit(&node.children[i], depth + 1);
            proof {
                lemma_walk_forest_snoc(
                    node.children@.subrange(0, i as int),
                    node.children@[i as int],
                    depth as nat + 1,
                    f1,
                );
                assert(node.children@.subrange(0, i as int).push(node.children@[i as int])
                    =~= node.children@.subrange(0, i as int + 1));
            }
            i = i + 1;
        }
        proof {
            assert(node.children@.subrange(0, n as int) =~= node.children@);
            assert(records_view(self.out@) =~= records_view(pre.out@) + walk(
                *node,
                depth as nat,
                pre.flags(),
            ).0);
        }
    }
}

/// Walks the whole tree from its root and returns the captured records in
/// pre-order.
pub(crate) fn build_records(root: &TreeNode) -> (records: Vec<NodeRecord>)
    requires
        node_height(*root) <= usize::MAX,
    ensures
        records_view(records@) == snapshot_of(*root),
{
    let mut b = SnapshotBuilder { root_found: false, inspector_found: false, out: Vec::new() };
    b.visit(root, 0);
    proof {
        assert(records_view(Seq::<NodeRecord>::empty()) =~= Seq::<RecordModel>::empty());
        assert(records_view(b.out@) =~= snapshot_of(*root));
    }
    b.out
}

} // verus!
