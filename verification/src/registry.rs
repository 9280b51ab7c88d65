//! The node registry: the ordered sequence of node records captured by the
//! last snapshot, addressable by position and by stable identity.
//!
//! A registry is replaced wholesale on every successful snapshot and never
//! mutated in place; the snapshot builder is its only writer.

use vstd::prelude::*;

use crate::snapshot::{build_records, lemma_snapshot_ids_distinct, lemma_snapshot_records_wf, snapshot_of};
use crate::tree::{node_height, tree_wf, ElementId, NodeId, StateAttr, TreeNode};

verus! {

/// One captured node: both identifiers, the tag (element tag name, or the
/// sentinels `"text"` and `"placeholder"`), the traversal depth at capture
/// time, the literal text of a text node, the listener names of an
/// element node, and the node's resolved style attributes.
pub struct NodeRecord {
    pub id: NodeId,
    pub element_id: ElementId,
    pub tag: String,
    pub depth: usize,
    pub text: Option<String>,
    pub listeners: Option<Vec<String>>,
    pub resolved_state: Vec<StateAttr>,
}

/// Mathematical image of one resolved attribute.
#[verifier::ext_equal]
pub struct AttrModel {
    pub name: Seq<char>,
    pub value: Seq<char>,
}

impl View for StateAttr {
    type V = AttrModel;

    open spec fn view(&self) -> AttrModel {
        AttrModel { name: self.name@, value: self.value@ }
    }
}

/// Mathematical image of a `NodeRecord`: strings become character
/// sequences, the depth a natural number.
#[verifier::ext_equal]
pub struct RecordModel {
    pub id: NodeId,
    pub element_id: ElementId,
    pub tag: Seq<char>,
    pub depth: nat,
    pub text: Option<Seq<char>>,
    pub listeners: Option<Seq<Seq<char>>>,
    pub resolved_state: Seq<AttrModel>,
}

impl View for NodeRecord {
    type V = RecordModel;

    open spec fn view(&self) -> RecordModel {
        RecordModel {
            id: self.id,
            element_id: self.element_id,
            tag: self.tag@,
            depth: self.depth as nat,
            text: match self.text {
                Option::Some(t) => Option::Some(t@),
                Option::None => Option::None,
            },
            listeners: match self.listeners {
                Option::Some(l) => Option::Some(l@.map_values(|s: String| s@)),
                Option::None => Option::None,
            },
            resolved_state: self.resolved_state@.map_values(|a: StateAttr| a@),
        }
    }
}

/// The images of a sequence of records.
pub open spec fn records_view(records: Seq<NodeRecord>) -> Seq<RecordModel> {
    records.map_values(|r: NodeRecord| r@)
}

/// No two records share a `NodeId`.
pub open spec fn distinct_ids(models: Seq<RecordModel>) -> bool {
    forall|i: int, j: int|
        0 <= i < j < models.len() ==> models[i].id != models[j].id
}

/// A record's listener names are pairwise distinct: the listener set the
/// host tree carries, kept a set.
pub open spec fn record_wf(m: RecordModel) -> bool {
    match m.listeners {
        Option::Some(l) => l.no_duplicates(),
        Option::None => true,
    }
}

/// Every record keeps its listener names distinct.
pub open spec fn records_wf(models: Seq<RecordModel>) -> bool {
    forall|i: int| 0 <= i < models.len() ==> record_wf(#[trigger] models[i])
}

/// Whether some record carries the identity `id`.
pub open spec fn has_id(models: Seq<RecordModel>, id: NodeId) -> bool {
    exists|i: int| 0 <= i < models.len() && models[i].id == id
}

/// The ordered sequence of node records from the last snapshot.
pub struct Registry {
    records: Vec<NodeRecord>,
}

impl View for Registry {
    type V = Seq<RecordModel>;

    closed spec fn view(&self) -> Seq<RecordModel> {
        records_view(self.records@)
    }
}

impl Registry {
    /// The registry invariant: identities are pairwise distinct, and
    /// each record's listener names are a set.
    pub open spec fn wf(&self) -> bool {
        distinct_ids(self@) && records_wf(self@)
    }

    /// An empty registry, shown until the first snapshot lands.
    pub fn new() -> (r: Registry)
        ensures
            r@ =~= Seq::<RecordModel>::empty(),
            r.wf(),
    {
        Registry { records: Vec::new() }
    }

    /// Wraps records already known to meet the registry invariant.
    pub(crate) fn from_records(records: Vec<NodeRecord>) -> (r: Registry)
        requires
            distinct_ids(records_view(records@)),
            records_wf(records_view(records@)),
        ensures
            r@ == records_view(records@),
            r.wf(),
    {
        Registry { records }
    }

    /// Builds the registry for one snapshot: the full pre-order walk of
    /// `root`, with the inspector's own subtree left out, one record per
    /// node that carries an `ElementId`.  The caller (the rebuild cycle)
    /// replaces the previous registry with the result wholesale.
    pub fn build(root: &TreeNode) -> (r: Registry)
        requires
            tree_wf(*root),
            node_height(*root) <= usize::MAX,
        ensures
            r@ == snapshot_of(*root),
            r.wf(),
    {
        let records = build_records(root);
        proof {
            lemma_snapshot_ids_distinct(*root);
            lemma_snapshot_records_wf(*root);
        }
        Registry::from_records(records)
    }

    /// How many records the last snapshot captured.
    pub fn len(&self) -> (n: usize)
        ensures
            n == self@.len(),
    {
        self.records.len()
    }

    pub fn is_empty(&self) -> (b: bool)
        ensures
            b == (self@.len() == 0),
    {
        self.records.len() == 0
    }

    /// Positional lookup; valid on `[0, len)`.
    pub fn get(&self, index: usize) -> (r: &NodeRecord)
        requires
            index < self@.len(),
        ensures
            r@ == self@[index as int],
    {
        &self.records[index]
    }

    /// Identity lookup by linear scan: the record with identity `id`, or
    /// `None` when the identity is not (or no longer) present.
    pub fn find(&self, id: NodeId) -> (found: Option<&NodeRecord>)
        ensures
            found matches Option::Some(r) ==> self@.contains(r@) && r@.id == id,
            found is None <==> !has_id(self@, id),
    {
        let n = self.records.len();
        let mut i: usize = 0;
        while i < n
            invariant
                n == self@.len(),
                i <= n,
                forall|j: int| 0 <= j < i ==> self@[j].id != id,
            decreases n - i,
        {
            if self.records[i].id == id {
                proof {
                    assert(self@[i as int] == self.records@[i as int]@);
                    assert(has_id(self@, id)) by {
                        assert(self@[i as int].id == id);
                    }
                }
                return Some(&self.records[i]);
            }
            i = i + 1;
        }
        None
    }
}

} // verus!
