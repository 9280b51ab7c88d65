//! The two channels at the inspector's edges, modelled as owned queues
//! with a closed sentinel.
//!
//! The host pushes unit signals into the signal channel whenever it
//! mutates its tree; the inspector pushes synthetic events into the event
//! channel for the host's dispatch pipeline to drain.  Either peer going
//! away closes its channel, which ends the session cleanly.

use vstd::prelude::*;

use crate::event::{EventModel, SyntheticEvent};
use crate::DevtoolsError;

verus! {

/// Mathematical image of the event channel: the queued events in order,
/// and whether the receiving end is gone.
#[verifier::ext_equal]
pub struct ChannelModel {
    pub queue: Seq<EventModel>,
    pub closed: bool,
}

/// Outbound emission channel for synthetic events, consumed by the host's
/// dispatch pipeline.
pub struct EventChannel {
    queue: Vec<SyntheticEvent>,
    closed: bool,
}

impl View for EventChannel {
    type V = ChannelModel;

    closed spec fn view(&self) -> ChannelModel {
        ChannelModel {
            queue: self.queue@.map_values(|e: SyntheticEvent| e@),
            closed: self.closed,
        }
    }
}

impl EventChannel {
    /// A fresh, open, empty channel.
    pub fn new() -> (c: EventChannel)
        ensures
            c@.queue =~= Seq::<EventModel>::empty(),
            !c@.closed,
    {
        EventChannel { queue: Vec::new(), closed: false }
    }

    /// Queues one event.  Fails — with nothing queued — exactly when the
    /// receiving end has been dropped; the failure is reported, never
    /// retried.
    pub fn send(&mut self, event: SyntheticEvent) -> (r: Result<(), DevtoolsError>)
        ensures
            !old(self)@.closed ==> r is Ok && final(self)@.queue =~= old(self)@.queue.push(event@)
                && !final(self)@.closed,
            old(self)@.closed ==> r == Err::<(), DevtoolsError>(DevtoolsError::ChannelClosed)
                && final(self)@ == old(self)@,
    {
        if self.closed {
            Err(DevtoolsError::ChannelClosed)
        } else {
            self.queue.push(event);
            Ok(())
        }
    }

    /// The receiving end is gone: everything still queued stays
    /// undeliverable and every later send fails.
    pub fn close(&mut self)
        ensures
            final(self)@.closed,
            final(self)@.queue == old(self)@.queue,
    {
        self.closed = true;
    }

    /// The host's dispatch side takes the oldest queued event, if any.
    pub fn take_next(&mut self) -> (ev: Option<SyntheticEvent>)
        ensures
            old(self)@.queue.len() == 0 ==> ev is None && final(self)@ == old(self)@,
            old(self)@.queue.len() > 0 ==> (ev matches Some(e) && e@ == old(self)@.queue[0]
                && final(self)@.queue =~= old(self)@.queue.drop_first() && final(self)@.closed
                == old(self)@.closed),
    {
        if self.queue.len() == 0 {
            None
        } else {
            let ev = self.queue.remove(0);
            proof {
                assert(final(self)@.queue =~= old(self)@.queue.drop_first());
            }
            Some(ev)
        }
    }

    /// How many events wait to be dispatched.
    pub fn pending(&self) -> (n: usize)
        ensures
            n == self@.queue.len(),
    {
        self.queue.len()
    }

    pub fn is_closed(&self) -> (b: bool)
        ensures
            b == self@.closed,
    {
        self.closed
    }
}

/// Inbound notification channel: the host pushes a unit signal per tree
/// mutation; the rebuild loop only ever sees the arrivals.
pub struct SignalChannel {
    pending: u64,
    closed: bool,
}

impl SignalChannel {
    /// How many signals wait, unread.
    pub closed spec fn spec_pending(&self) -> u64 {
        self.pending
    }

    /// Whether the sending side is gone.
    pub closed spec fn spec_closed(&self) -> bool {
        self.closed
    }

    /// A fresh, open, empty channel.
    pub fn new() -> (c: SignalChannel)
        ensures
            c.spec_pending() == 0,
            !c.spec_closed(),
    {
        SignalChannel { pending: 0, closed: false }
    }

    /// The host announces one tree mutation.  The channel is unbounded in
    /// spirit; the counter saturates only at the machine's limit.
    pub fn send(&mut self)
        ensures
            old(self).spec_pending() < u64::MAX ==> final(self).spec_pending() == old(
                self,
            ).spec_pending() + 1,
            old(self).spec_pending() == u64::MAX ==> final(self).spec_pending() == u64::MAX,
            final(self).spec_closed() == old(self).spec_closed(),
    {
        if self.pending < u64::MAX {
            self.pending = self.pending + 1;
        }
    }

    /// The sending side is gone; no further signal will arrive.
    pub fn close(&mut self)
        ensures
            final(self).spec_closed(),
            final(self).spec_pending() == old(self).spec_pending(),
    {
        self.closed = true;
    }

    /// The loop takes one waiting signal, if any.
    pub fn try_take(&mut self) -> (got: bool)
        ensures
            got == (old(self).spec_pending() > 0),
            got ==> final(self).spec_pending() == old(self).spec_pending() - 1,
            !got ==> final(self).spec_pending() == 0,
            final(self).spec_closed() == old(self).spec_closed(),
    {
        if self.pending > 0 {
            self.pending = self.pending - 1;
            true
        } else {
            false
        }
    }

    pub fn is_closed(&self) -> (b: bool)
        ensures
            b == self.spec_closed(),
    {
        self.closed
    }
}

} // verus!
