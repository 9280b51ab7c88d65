//! Core of a live inspection overlay for a running UI application.
//!
//! The host application owns a retained tree of nodes and signals the
//! inspector whenever that tree changes.  This crate holds the verified part
//! of the inspector: the debounced rebuild decisions, the depth-first
//! snapshot of the tree (which must leave out the inspector's own panel),
//! the registry of captured node records, the selection that survives
//! rebuilds, and the construction of synthetic input events that are fed
//! back into the host's dispatch pipeline.
//!
//! Everything the host does itself — locking the real tree, sleeping out the
//! debounce interval, carrying events over real channels, drawing the panel —
//! stays outside; this crate works on plain values handed in and out.

pub mod channel;
pub mod coords;
pub mod debounce;
pub mod display;
pub mod event;
pub mod registry;
pub mod selection;
pub mod session;
pub mod snapshot;
pub mod theme;
pub mod tree;

use vstd::prelude::*;

verus! {

/// Everything that can go wrong inside the inspector.  None of it is
/// fatal to the host: a skipped rebuild leaves a stale snapshot, a closed
/// channel ends the session task cleanly, a vanished injection target is a
/// no-op, and malformed coordinate text falls back to the previous value.
#[derive(Clone, Copy, PartialEq, Eq, Structural, Debug)]
pub enum DevtoolsError {
    /// The tree lock could not be taken; the rebuild is skipped and
    /// retried on the next signal.
    LockUnavailable,
    /// A channel's peer is gone; the session winds down.
    ChannelClosed,
    /// The node aimed at by an injection no longer resolves in the
    /// current registry.
    InjectTargetGone,
    /// Numeric text for a synthetic coordinate did not parse; the
    /// previous valid value stays.
    MalformedCoordinateInput,
}

impl DevtoolsError {
    /// A short description, for the host's log line.
    pub fn describe(&self) -> (s: &'static str)
        ensures
            s@ == match self {
                DevtoolsError::LockUnavailable => "tree lock unavailable, snapshot kept"@,
                DevtoolsError::ChannelClosed => "channel closed"@,
                DevtoolsError::InjectTargetGone => "injection target no longer present"@,
                DevtoolsError::MalformedCoordinateInput => "coordinate text did not parse"@,
            },
    {
        match self {
            DevtoolsError::LockUnavailable => "tree lock unavailable, snapshot kept",
            DevtoolsError::ChannelClosed => "channel closed",
            DevtoolsError::InjectTargetGone => "injection target no longer present",
            DevtoolsError::MalformedCoordinateInput => "coordinate text did not parse",
        }
    }
}

} // verus!
