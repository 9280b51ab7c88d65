//! Synthetic input events.
//!
//! The inspector can construct an input event from user-supplied
//! parameters and the currently inspected node record, and submit it on
//! the outbound emission channel.  The host dispatches it exactly like a
//! real input event; nothing marks it as synthetic.

use vstd::prelude::*;

use crate::channel::EventChannel;
use crate::coords::CoordPair;
use crate::registry::NodeRecord;
use crate::tree::ElementId;
use crate::DevtoolsError;

verus! {

/// The pointer button a synthetic pointer event carries.
#[derive(Clone, Copy, PartialEq, Eq, Structural, Debug)]
pub enum MouseButton {
    Left,
    Middle,
    Right,
}

/// The payload of a synthetic event; pointer events carry the screen
/// point, the user-editable local point, and an optional button.
pub enum EventPayload {
    Mouse { screen: CoordPair, local: CoordPair, button: Option<MouseButton> },
}

/// A synthetic input event: the event name, the renderer-facing target,
/// and the payload.
pub struct SyntheticEvent {
    pub name: String,
    pub target: ElementId,
    pub payload: EventPayload,
}

/// Mathematical image of a coordinate pair.
#[verifier::ext_equal]
pub struct PairModel {
    pub x: Seq<char>,
    pub y: Seq<char>,
}

impl View for CoordPair {
    type V = PairModel;

    open spec fn view(&self) -> PairModel {
        PairModel { x: self.x@, y: self.y@ }
    }
}

/// Mathematical image of an event payload.
#[verifier::ext_equal]
pub enum PayloadModel {
    Mouse { screen: PairModel, local: PairModel, button: Option<MouseButton> },
}

/// Mathematical image of a synthetic event.
#[verifier::ext_equal]
pub struct EventModel {
    pub name: Seq<char>,
    pub target: ElementId,
    pub payload: PayloadModel,
}

impl View for EventPayload {
    type V = PayloadModel;

    open spec fn view(&self) -> PayloadModel {
        match self {
            EventPayload::Mouse { screen, local, button } => PayloadModel::Mouse {
                screen: screen@,
                local: local@,
                button: *button,
            },
        }
    }
}

impl View for SyntheticEvent {
    type V = EventModel;

    open spec fn view(&self) -> EventModel {
        EventModel { name: self.name@, target: self.target, payload: self.payload@ }
    }
}

/// The screen point a synthetic pointer event reports: the origin.
pub open spec fn origin_pair() -> PairModel {
    PairModel { x: "0"@, y: "0"@ }
}

/// The pointer event the injector builds: named `name`, aimed at
/// `target`, pressed with the left button at the given local point.
pub open spec fn mouse_event_model(name: Seq<char>, target: ElementId, local: PairModel) -> EventModel {
    EventModel {
        name,
        target,
        payload: PayloadModel::Mouse {
            screen: origin_pair(),
            local,
            button: Some(MouseButton::Left),
        },
    }
}

/// Builds the synthetic pointer event for one injection, exactly as
/// [`mouse_event_model`] describes it.
pub fn make_mouse_event(name: &str, target: ElementId, local: &CoordPair) -> (ev: SyntheticEvent)
    ensures
        ev@ == mouse_event_model(name@, target, local@),
{
    let ev = SyntheticEvent {
        name: String::from_str(name),
        target,
        payload: EventPayload::Mouse {
            screen: CoordPair::origin(),
            local: local.duplicate(),
            button: Some(MouseButton::Left),
        },
    };
    proof {
        assert(ev@.payload =~= mouse_event_model(name@, target, local@).payload);
        assert(ev@ =~= mouse_event_model(name@, target, local@));
    }
    ev
}

/// Injects a pointer event aimed at `node` into the emission channel.
///
/// No listener check happens here: injecting an event the node does not
/// listen for is accepted — the host's dispatch simply finds no handler.
/// The call fails only when the channel's receiving end is gone, and then
/// queues nothing.
pub fn inject(
    node: &NodeRecord,
    event_name: &str,
    local: &CoordPair,
    channel: &mut EventChannel,
) -> (r: Result<(), DevtoolsError>)
    ensures
        !old(channel)@.closed ==> r is Ok && !final(channel)@.closed && final(channel)@.queue
            =~= old(channel)@.queue.push(
            mouse_event_model(event_name@, node@.element_id, local@),
        ),
        old(channel)@.closed ==> r == Err::<(), DevtoolsError>(DevtoolsError::ChannelClosed)
            && final(channel)@ == old(channel)@,
{
    let ev = make_mouse_event(event_name, node.element_id, local);
    channel.send(ev)
}

} // verus!
