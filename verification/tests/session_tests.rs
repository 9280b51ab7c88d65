use devtools::channel::EventChannel;
use devtools::coords::CoordPair;
use devtools::debounce::{DebouncePhase, LoopAction, LoopEvent};
use devtools::event::{EventPayload, MouseButton};
use devtools::session::Inspector;
use devtools::tree::{ElementId, NodeId, NodeKind, TreeNode};
use devtools::DevtoolsError;

fn element(id: u64, eid: Option<u64>, tag: &str, listeners: Vec<&str>, children: Vec<TreeNode>) -> TreeNode {
    TreeNode {
        id: NodeId(id),
        element_id: eid.map(ElementId),
        kind: NodeKind::Element {
            tag: tag.to_string(),
            listeners: listeners.into_iter().map(|s| s.to_string()).collect(),
        },
        resolved_state: Vec::new(),
        children,
    }
}

fn text(id: u64, eid: Option<u64>, content: &str) -> TreeNode {
    TreeNode {
        id: NodeId(id),
        element_id: eid.map(ElementId),
        kind: NodeKind::Text { text: content.to_string() },
        resolved_state: Vec::new(),
        children: Vec::new(),
    }
}

fn one_button_tree() -> TreeNode {
    TreeNode {
        id: NodeId(0),
        element_id: None,
        kind: NodeKind::Placeholder,
        resolved_state: Vec::new(),
        children: vec![element(1, Some(1), "rect", vec!["click"], vec![])],
    }
}

#[test]
fn attach_starts_empty_and_idle() {
    let ins = Inspector::attach();
    assert_eq!(ins.registry.len(), 0);
    assert_eq!(ins.selection.get(), None);
    assert_eq!(ins.phase, DebouncePhase::Idle);
    assert!(ins.resolve_selection().is_none());
}

/// Select a node, inject a click at (5.0, 5.0): exactly one event with the
/// node's ElementId and the typed local point leaves on the channel.
#[test]
fn select_and_inject_click() {
    let tree = one_button_tree();
    let mut ins = Inspector::attach();
    ins.on_event(LoopEvent::Signal);
    ins.on_event(LoopEvent::DebounceElapsed);
    ins.rebuild(Some(&tree)).expect("lock was free");
    assert_eq!(ins.registry.len(), 1);

    let hover = ins.select(NodeId(1));
    assert_eq!(hover, Some(NodeId(1)));

    let mut local = CoordPair::origin();
    assert!(local.set_x("5.0"));
    assert!(local.set_y("5.0"));

    let mut channel = EventChannel::new();
    ins.inject_selected("click", &local, &mut channel).expect("open channel accepts");
    assert_eq!(channel.pending(), 1);

    let ev = channel.take_next().expect("one event queued");
    assert_eq!(ev.name, "click");
    assert_eq!(ev.target, ElementId(1));
    let EventPayload::Mouse { screen, local, button } = ev.payload;
    assert_eq!(screen.x.as_text(), "0");
    assert_eq!(screen.y.as_text(), "0");
    assert_eq!(local.x.as_text(), "5.0");
    assert_eq!(local.y.as_text(), "5.0");
    assert_eq!(button, Some(MouseButton::Left));
    assert_eq!(channel.pending(), 0);
}

/// Injecting at a node with no listeners is accepted; the dispatch side
/// simply finds no handler.
#[test]
fn injection_at_text_node_is_accepted() {
    let tree = TreeNode {
        id: NodeId(0),
        element_id: None,
        kind: NodeKind::Placeholder,
        resolved_state: Vec::new(),
        children: vec![text(1, Some(1), "Hello")],
    };
    let mut ins = Inspector::attach();
    ins.rebuild(Some(&tree)).unwrap();
    let rec = ins.registry.get(0);
    assert_eq!(rec.tag, "text");
    assert_eq!(rec.listeners, None);

    ins.select(NodeId(1));
    let mut channel = EventChannel::new();
    let local = CoordPair::origin();
    assert!(ins.inject_selected("click", &local, &mut channel).is_ok());
    assert_eq!(channel.pending(), 1);
}

#[test]
fn injection_without_resolving_selection_is_a_no_op() {
    let tree = one_button_tree();
    let mut ins = Inspector::attach();
    ins.rebuild(Some(&tree)).unwrap();

    let mut channel = EventChannel::new();
    let local = CoordPair::origin();

    // Nothing selected.
    let r = ins.inject_selected("click", &local, &mut channel);
    assert_eq!(r, Err(DevtoolsError::InjectTargetGone));
    assert_eq!(channel.pending(), 0);

    // Selected, but the identity vanished from the registry.
    ins.select(NodeId(99));
    let r = ins.inject_selected("click", &local, &mut channel);
    assert_eq!(r, Err(DevtoolsError::InjectTargetGone));
    assert_eq!(channel.pending(), 0);
}

#[test]
fn injection_into_closed_channel_is_reported() {
    let tree = one_button_tree();
    let mut ins = Inspector::attach();
    ins.rebuild(Some(&tree)).unwrap();
    ins.select(NodeId(1));

    let mut channel = EventChannel::new();
    channel.close();
    let local = CoordPair::origin();
    let r = ins.inject_selected("click", &local, &mut channel);
    assert_eq!(r, Err(DevtoolsError::ChannelClosed));
    assert_eq!(channel.pending(), 0);
}

/// The host holds the tree lock through the whole debounce window: the
/// rebuild is skipped with a stale registry, retried on the next signal,
/// and succeeds once the lock is free — the session never drops.
#[test]
fn rebuild_retries_after_lock_unavailable() {
    let tree = one_button_tree();
    let mut ins = Inspector::attach();

    assert_eq!(ins.on_event(LoopEvent::Signal), LoopAction::ArmTimer);
    assert_eq!(ins.on_event(LoopEvent::DebounceElapsed), LoopAction::Rebuild);
    let r = ins.rebuild(None);
    assert_eq!(r, Err(DevtoolsError::LockUnavailable));
    assert_eq!(ins.registry.len(), 0, "stale registry is kept");
    assert_eq!(ins.phase, DebouncePhase::Idle, "loop waits for the next signal");

    assert_eq!(ins.on_event(LoopEvent::Signal), LoopAction::ArmTimer);
    assert_eq!(ins.on_event(LoopEvent::DebounceElapsed), LoopAction::Rebuild);
    ins.rebuild(Some(&tree)).expect("lock released");
    assert_eq!(ins.registry.len(), 1);
}

/// A selection survives rebuilds: made while absent, it resolves as soon
/// as a rebuild brings a matching identity in.
#[test]
fn selection_resolves_after_later_rebuild() {
    let mut ins = Inspector::attach();
    ins.select(NodeId(1));
    assert_eq!(ins.selection.get(), Some(NodeId(1)));
    assert!(ins.resolve_selection().is_none(), "absent identity resolves to nothing");

    let tree = one_button_tree();
    ins.rebuild(Some(&tree)).unwrap();
    assert_eq!(ins.selection.get(), Some(NodeId(1)), "rebuild does not clear the selection");
    let rec = ins.resolve_selection().expect("identity is back");
    assert_eq!(rec.id, NodeId(1));
}

#[test]
fn channel_closed_ends_the_session_cleanly() {
    let mut ins = Inspector::attach();
    assert_eq!(ins.on_event(LoopEvent::ChannelClosed), LoopAction::Terminate);
    assert_eq!(ins.phase, DebouncePhase::Ended);
    assert_eq!(ins.on_event(LoopEvent::Signal), LoopAction::Ignore);
    assert_eq!(ins.phase, DebouncePhase::Ended);
}
