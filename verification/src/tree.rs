//! The inspector's model of the host's retained UI tree.
//!
//! The host hands the snapshot builder read access to one tree of nodes.
//! Each node carries the stable identity the tree assigned to it, an
//! optional renderer-facing identifier, its kind (element, text or
//! placeholder), and its children in order.

use vstd::prelude::*;

verus! {

/// Stable identity assigned by the host tree.  Two nodes are the same
/// logical node exactly when their `NodeId`s are equal, independent of
/// where they sit in the tree.
#[derive(Clone, Copy, PartialEq, Eq, Structural, Debug, Hash)]
pub struct NodeId(pub u64);

/// Renderer-facing identifier, needed to address a node when a synthetic
/// event is emitted into the host's dispatch pipeline.  Nodes without one
/// are structural and cannot be inspected.
#[derive(Clone, Copy, PartialEq, Eq, Structural, Debug, Hash)]
pub struct ElementId(pub u64);

/// What a node is: an element with a tag name and its listener names, a
/// text node with its literal text, or a placeholder.
pub enum NodeKind {
    Element { tag: String, listeners: Vec<String> },
    Text { text: String },
    Placeholder,
}

/// One already-resolved style or layout attribute, as the host's styling
/// system attaches it to a node.  The inspector only relays the pair; the
/// values are opaque to it.
#[derive(Debug, PartialEq, Eq)]
pub struct StateAttr {
    pub name: String,
    pub value: String,
}

/// One node of the retained tree, as the inspector reads it under the
/// host's lock.
pub struct TreeNode {
    pub id: NodeId,
    pub element_id: Option<ElementId>,
    pub kind: NodeKind,
    pub resolved_state: Vec<StateAttr>,
    pub children: Vec<TreeNode>,
}

/// All identities of the subtree rooted at `node`, in pre-order.
pub open spec fn node_ids(node: TreeNode) -> Seq<NodeId>
    decreases node,
{
    seq![node.id] + forest_ids(node.children@)
}

/// All identities of a sequence of subtrees, in pre-order.
pub open spec fn forest_ids(nodes: Seq<TreeNode>) -> Seq<NodeId>
    decreases nodes,
{
    if nodes.len() == 0 {
        Seq::empty()
    } else {
        node_ids(nodes[0]) + forest_ids(nodes.drop_first())
    }
}

/// An element's listener names form a set: no name occurs twice.
pub open spec fn listeners_distinct(kind: NodeKind) -> bool {
    match kind {
        NodeKind::Element { tag: _, listeners } => listeners@.map_values(
            |s: String| s@,
        ).no_duplicates(),
        NodeKind::Text { .. } => true,
        NodeKind::Placeholder => true,
    }
}

/// Every node of the subtree keeps its listener names distinct.
pub open spec fn node_listeners_wf(node: TreeNode) -> bool
    decreases node,
{
    listeners_distinct(node.kind) && forest_listeners_wf(node.children@)
}

pub open spec fn forest_listeners_wf(nodes: Seq<TreeNode>) -> bool
    decreases nodes,
{
    nodes.len() == 0 || (node_listeners_wf(nodes[0]) && forest_listeners_wf(nodes.drop_first()))
}

/// A tree is well formed when the host assigned pairwise distinct
/// identities — which its arena guarantees by construction — and every
/// element's listener names form a set.
pub open spec fn tree_wf(node: TreeNode) -> bool {
    node_ids(node).no_duplicates() && node_listeners_wf(node)
}

/// Height of the subtree rooted at `node`: 1 for a leaf.
pub open spec fn node_height(node: TreeNode) -> nat
    decreases node,
{
    1 + forest_height(node.children@)
}

/// Largest height among a sequence of subtrees.
pub open spec fn forest_height(nodes: Seq<TreeNode>) -> nat
    decreases nodes,
{
    if nodes.len() == 0 {
        0
    } else if node_height(nodes[0]) >= forest_height(nodes.drop_first()) {
        node_height(nodes[0])
    } else {
        forest_height(nodes.drop_first())
    }
}

/// Every subtree of a forest stays within the forest's height.
pub proof fn lemma_forest_height_bounds(nodes: Seq<TreeNode>, i: int)
    requires
        0 <= i < nodes.len(),
    ensures
        node_height(nodes[i]) <= forest_height(nodes),
    decreases nodes.len(),
{
    if i > 0 {
        lemma_forest_height_bounds(nodes.drop_first(), i - 1);
    }
}

} // verus!
