//! One inspector session: the registry of the last snapshot, the
//! selection, and the rebuild loop's phase, with the operations the host
//! drives them through.
//!
//! The host owns the real tree lock, timers and channels.  It feeds the
//! session arrival events, performs the actions the session asks for, and
//! hands over read access to the tree when a rebuild is due.

use vstd::prelude::*;

use crate::channel::EventChannel;
use crate::coords::CoordPair;
use crate::debounce::{spec_step, step, DebouncePhase, LoopAction, LoopEvent};
use crate::event::{inject, mouse_event_model};
use crate::registry::{has_id, NodeRecord, Registry};
use crate::selection::{resolves, Selection};
use crate::snapshot::snapshot_of;
use crate::tree::{node_height, tree_wf, NodeId, TreeNode};
use crate::DevtoolsError;

verus! {

/// The state an attached inspector keeps for the lifetime of a session.
pub struct Inspector {
    pub registry: Registry,
    pub selection: Selection,
    pub phase: DebouncePhase,
}

impl Inspector {
    /// Attaching to a host: empty registry, nothing selected, the loop
    /// waiting for its first signal.
    pub fn attach() -> (ins: Inspector)
        ensures
            ins.registry@.len() == 0,
            ins.selection@ is None,
            ins.phase == DebouncePhase::Idle,
    {
        Inspector {
            registry: Registry::new(),
            selection: Selection::new(),
            phase: DebouncePhase::Idle,
        }
    }

    /// Feeds one arrival event to the rebuild loop and returns the action
    /// the host must perform.  Registry and selection do not move here;
    /// a rebuild happens only through [`Inspector::rebuild`].
    pub fn on_event(&mut self, event: LoopEvent) -> (action: LoopAction)
        ensures
            (final(self).phase, action) == spec_step(old(self).phase, event),
            final(self).registry == old(self).registry,
            final(self).selection == old(self).selection,
    {
        let (phase, action) = step(self.phase, event);
        self.phase = phase;
        action
    }

    /// Performs the rebuild the loop asked for.  The host passes the tree
    /// when it won the lock, or `None` when the lock was unavailable; in
    /// the latter case the stale registry stays and the rebuild waits for
    /// the next signal.  The selection is never cleared by a rebuild,
    /// even when the selected identity vanished.
    pub fn rebuild(&mut self, tree: Option<&TreeNode>) -> (r: Result<(), DevtoolsError>)
        requires
            tree matches Some(t) ==> tree_wf(*t) && node_height(*t) <= usize::MAX,
        ensures
            tree matches Some(t) ==> r is Ok && final(self).registry@ == snapshot_of(*t)
                && final(self).registry.wf(),
            tree is None ==> r == Err::<(), DevtoolsError>(DevtoolsError::LockUnavailable)
                && final(self).registry == old(self).registry,
            final(self).selection == old(self).selection,
            final(self).phase == old(self).phase,
    {
        match tree {
            Some(t) => {
                self.registry = Registry::build(t);
                Ok(())
            },
            None => Err(DevtoolsError::LockUnavailable),
        }
    }

    /// Selects `id` — present in the current registry or not — and
    /// returns the highlight for the host's hover collaborator.
    pub fn select(&mut self, id: NodeId) -> (hover: Option<NodeId>)
        ensures
            final(self).selection@ == Some(id),
            hover == Some(id),
            final(self).registry == old(self).registry,
            final(self).phase == old(self).phase,
    {
        self.selection.select(id)
    }

    /// Clears the selection and takes the highlight down.
    pub fn clear_selection(&mut self) -> (hover: Option<NodeId>)
        ensures
            final(self).selection@ is None,
            hover is None,
            final(self).registry == old(self).registry,
            final(self).phase == old(self).phase,
    {
        self.selection.clear()
    }

    /// The record the selection currently resolves to, if the selected
    /// identity is still in the registry.
    pub fn resolve_selection(&self) -> (found: Option<&NodeRecord>)
        ensures
            found is Some <==> resolves(self.selection@, self.registry@),
            self.selection@ matches Some(id) ==> (found matches Some(r) ==> self.registry@.contains(
                r@,
            ) && r@.id == id),
    {
        self.selection.resolve(&self.registry)
    }

    /// Injects a pointer event at the selected node.  A selection that no
    /// longer resolves aborts the injection as a no-op; a closed channel
    /// is reported; otherwise exactly the event aimed at the resolved
    /// record's `ElementId` is queued.
    pub fn inject_selected(
        &self,
        event_name: &str,
        local: &CoordPair,
        channel: &mut EventChannel,
    ) -> (r: Result<(), DevtoolsError>)
        ensures
            ({
                match self.selection@ {
                    Option::None => r == Err::<(), DevtoolsError>(DevtoolsError::InjectTargetGone)
                        && final(channel)@ == old(channel)@,
                    Option::Some(id) => {
                        if !has_id(self.registry@, id) {
                            r == Err::<(), DevtoolsError>(DevtoolsError::InjectTargetGone)
                                && final(channel)@ == old(channel)@
                        } else if old(channel)@.closed {
                            r == Err::<(), DevtoolsError>(DevtoolsError::ChannelClosed)
                                && final(channel)@ == old(channel)@
                        } else {
                            r is Ok && !final(channel)@.closed && exists|i: int|
                                0 <= i < self.registry@.len() && (#[trigger] self.registry@[i]).id
                                    == id && final(channel)@.queue =~= old(channel)@.queue.push(
                                    mouse_event_model(
                                        event_name@,
                                        self.registry@[i].element_id,
                                        local@,
                                    ),
                                )
                        }
                    },
                }
            }),
    {
        match self.selection.resolve(&self.registry) {
            Some(record) => {
                let r = inject(record, event_name, local, channel);
                proof {
                    if !old(channel)@.closed {
                        let i = choose|i: int|
                            0 <= i < self.registry@.len() && self.registry@[i] == record@;
                        assert(self.registry@[i].id == self.selection@->0);
                    }
                }
                r
            },
            None => Err(DevtoolsError::InjectTargetGone),
        }
    }
}

} // verus!
