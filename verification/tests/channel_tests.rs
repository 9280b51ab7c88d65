use devtools::channel::EventChannel;
use devtools::coords::CoordPair;
use devtools::event::{inject, make_mouse_event, EventPayload, MouseButton};
use devtools::registry::NodeRecord;
use devtools::tree::{ElementId, NodeId};
use devtools::DevtoolsError;

fn record(id: u64, eid: u64) -> NodeRecord {
    NodeRecord {
        id: NodeId(id),
        element_id: ElementId(eid),
        tag: "rect".to_string(),
        depth: 1,
        text: None,
        listeners: Some(vec!["click".to_string()]),
        resolved_state: Vec::new(),
    }
}

#[test]
fn events_leave_in_arrival_order() {
    let mut ch = EventChannel::new();
    let local = CoordPair::origin();
    inject(&record(1, 10), "click", &local, &mut ch).unwrap();
    inject(&record(2, 20), "mousedown", &local, &mut ch).unwrap();
    assert_eq!(ch.pending(), 2);
    assert_eq!(ch.take_next().unwrap().target, ElementId(10));
    assert_eq!(ch.take_next().unwrap().target, ElementId(20));
    assert!(ch.take_next().is_none());
}

#[test]
fn send_into_closed_channel_fails_and_queues_nothing() {
    let mut ch = EventChannel::new();
    ch.close();
    assert!(ch.is_closed());
    let local = CoordPair::origin();
    let r = inject(&record(1, 10), "click", &local, &mut ch);
    assert_eq!(r, Err(DevtoolsError::ChannelClosed));
    assert_eq!(ch.pending(), 0);
}

#[test]
fn built_event_carries_the_users_parameters() {
    let mut local = CoordPair::origin();
    local.set_x("3.5");
    let ev = make_mouse_event("mousedown", ElementId(7), &local);
    assert_eq!(ev.name, "mousedown");
    assert_eq!(ev.target, ElementId(7));
    let EventPayload::Mouse { screen, local, button } = ev.payload;
    assert_eq!(screen.x.as_text(), "0");
    assert_eq!(screen.y.as_text(), "0");
    assert_eq!(local.x.as_text(), "3.5");
    assert_eq!(local.y.as_text(), "0");
    assert_eq!(button, Some(MouseButton::Left));
}

#[test]
fn error_descriptions() {
    assert_eq!(DevtoolsError::LockUnavailable.describe(), "tree lock unavailable, snapshot kept");
    assert_eq!(DevtoolsError::ChannelClosed.describe(), "channel closed");
    assert_eq!(DevtoolsError::InjectTargetGone.describe(), "injection target no longer present");
    assert_eq!(DevtoolsError::MalformedCoordinateInput.describe(), "coordinate text did not parse");
}
