//! Selection state: at most one selected node identity, surviving snapshot
//! rebuilds until it is explicitly cleared.
//!
//! The selected identity may stop resolving when the host removes the node
//! from its tree; that is not an error.  Consumers resolve the selection
//! against the current registry on every read and treat a missing identity
//! as "nothing to display".

use vstd::prelude::*;

use crate::registry::{has_id, NodeRecord, RecordModel, Registry};
use crate::tree::NodeId;

verus! {

/// Whether a selection resolves against a registry: something is
/// selected and a record carries that identity.
pub open spec fn resolves(sel: Option<NodeId>, models: Seq<RecordModel>) -> bool {
    match sel {
        Option::Some(id) => has_id(models, id),
        Option::None => false,
    }
}

/// `None` is the `Unselected` state; `Some(id)` is `Selected(id)`.
pub struct Selection {
    selected: Option<NodeId>,
}

impl View for Selection {
    type V = Option<NodeId>;

    closed spec fn view(&self) -> Option<NodeId> {
        self.selected
    }
}

impl Selection {
    /// A fresh session starts unselected.
    pub fn new() -> (s: Selection)
        ensures
            s@ is None,
    {
        Selection { selected: None }
    }

    /// Moves to `Selected(id)` unconditionally — even when `id` is not in
    /// the current registry, since a later rebuild may bring it back.
    /// Returns the highlight to hand to the host's hover collaborator.
    pub fn select(&mut self, id: NodeId) -> (hover: Option<NodeId>)
        ensures
            final(self)@ == Some(id),
            hover == Some(id),
    {
        self.selected = Some(id);
        Some(id)
    }

    /// Moves to `Unselected`; the host's highlight is taken down.
    pub fn clear(&mut self) -> (hover: Option<NodeId>)
        ensures
            final(self)@ is None,
            hover is None,
    {
        self.selected = None;
        None
    }

    /// The currently selected identity, if any.
    pub fn get(&self) -> (id: Option<NodeId>)
        ensures
            id == self@,
    {
        self.selected
    }

    /// Resolves the selection against the current registry.  `None` both
    /// when nothing is selected and when the selected identity is gone
    /// from the registry — never an error.
    pub fn resolve<'a>(&self, registry: &'a Registry) -> (found: Option<&'a NodeRecord>)
        ensures
            found is Some <==> resolves(self@, registry@),
            self@ matches Some(id) ==> (found matches Some(r) ==> registry@.contains(r@)
                && r@.id == id),
    {
        match self.selected {
            Some(id) => registry.find(id),
            None => None,
        }
    }
}

/// Eventual resolution: a selection made while its identity is absent
/// resolves to nothing, stays `Selected(id)` (see [`Selection::select`],
/// which is unconditional, and rebuilds, which never touch the
/// selection), and resolves as soon as a rebuild yields a registry that
/// carries the identity again.
pub proof fn lemma_eventual_resolution(
    id: NodeId,
    before: Seq<RecordModel>,
    after: Seq<RecordModel>,
)
    requires
        !has_id(before, id),
        has_id(after, id),
    ensures
        !resolves(Some(id), before),
        resolves(Some(id), after),
{
}

} // verus!
