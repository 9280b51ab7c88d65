//! The rebuild loop's decisions, as a state machine over arrival events.
//!
//! The loop lives for the whole inspector session.  A mutation signal does
//! not trigger a rebuild at once: the loop waits out a short debounce
//! interval so that a burst of signals from one host update cycle collapses
//! into a single rebuild.  Closing of the signal channel ends the loop
//! cleanly — that is normal termination, not a failure.
//!
//! The host side performs the actions (arming the timer, taking the tree
//! lock, sleeping); this module only decides them.

use vstd::prelude::*;

verus! {

/// How long the loop waits after the first signal of a burst before it
/// rebuilds, in milliseconds.
pub const DEBOUNCE_INTERVAL_MS: u64 = 10;

/// Where the loop stands: waiting for a signal, inside a debounce window,
/// or ended for good after the channel closed.
#[derive(Clone, Copy, PartialEq, Eq, Structural, Debug)]
pub enum DebouncePhase {
    Idle,
    Pending,
    Ended,
}

/// What can reach the loop: a mutation signal, the end of the debounce
/// interval, or the closing of the signal channel.
#[derive(Clone, Copy, PartialEq, Eq, Structural, Debug)]
pub enum LoopEvent {
    Signal,
    DebounceElapsed,
    ChannelClosed,
}

/// What the loop asks its host to do next.
#[derive(Clone, Copy, PartialEq, Eq, Structural, Debug)]
pub enum LoopAction {
    /// Start the debounce interval.
    ArmTimer,
    /// Nothing: in particular, further signals inside one window coalesce.
    Ignore,
    /// The window closed: take the tree lock and rebuild the registry.
    Rebuild,
    /// The channel closed: end the session task cleanly.
    Terminate,
}

/// One decision of the loop: next phase and the action the host performs.
pub open spec fn spec_step(phase: DebouncePhase, event: LoopEvent) -> (DebouncePhase, LoopAction) {
    match (phase, event) {
        (DebouncePhase::Ended, _) => (DebouncePhase::Ended, LoopAction::Ignore),
        (_, LoopEvent::ChannelClosed) => (DebouncePhase::Ended, LoopAction::Terminate),
        (DebouncePhase::Idle, LoopEvent::Signal) => (DebouncePhase::Pending, LoopAction::ArmTimer),
        (DebouncePhase::Pending, LoopEvent::Signal) => (DebouncePhase::Pending, LoopAction::Ignore),
        (DebouncePhase::Pending, LoopEvent::DebounceElapsed) => (
            DebouncePhase::Idle,
            LoopAction::Rebuild,
        ),
        (DebouncePhase::Idle, LoopEvent::DebounceElapsed) => (DebouncePhase::Idle, LoopAction::Ignore),
    }
}

/// Executable form of [`spec_step`].
pub fn step(phase: DebouncePhase, event: LoopEvent) -> (r: (DebouncePhase, LoopAction))
    ensures
        r == spec_step(phase, event),
{
    match (phase, event) {
        (DebouncePhase::Ended, _) => (DebouncePhase::Ended, LoopAction::Ignore),
        (_, LoopEvent::ChannelClosed) => (DebouncePhase::Ended, LoopAction::Terminate),
        (DebouncePhase::Idle, LoopEvent::Signal) => (DebouncePhase::Pending, LoopAction::ArmTimer),
        (DebouncePhase::Pending, LoopEvent::Signal) => (DebouncePhase::Pending, LoopAction::Ignore),
        (DebouncePhase::Pending, LoopEvent::DebounceElapsed) => (
            DebouncePhase::Idle,
            LoopAction::Rebuild,
        ),
        (DebouncePhase::Idle, LoopEvent::DebounceElapsed) => (
            DebouncePhase::Idle,
            LoopAction::Ignore,
        ),
    }
}

/// The actions a whole run of events produces, in order.
pub open spec fn spec_run(phase: DebouncePhase, events: Seq<LoopEvent>) -> Seq<LoopAction>
    decreases events.len(),
{
    if events.len() == 0 {
        Seq::empty()
    } else {
        let s = spec_step(phase, events[0]);
        seq![s.1] + spec_run(s.0, events.drop_first())
    }
}

/// The phase a whole run of events leaves behind.
pub open spec fn phase_after(phase: DebouncePhase, events: Seq<LoopEvent>) -> DebouncePhase
    decreases events.len(),
{
    if events.len() == 0 {
        phase
    } else {
        phase_after(spec_step(phase, events[0]).0, events.drop_first())
    }
}

/// How many rebuilds a run of actions asks for.
pub open spec fn count_rebuilds(actions: Seq<LoopAction>) -> nat
    decreases actions.len(),
{
    if actions.len() == 0 {
        0
    } else {
        (if actions[0] is Rebuild {
            1nat
        } else {
            0nat
        }) + count_rebuilds(actions.drop_first())
    }
}

/// Inside a debounce window, further signals change nothing: the phase
/// stays `Pending` and no rebuild is asked for.
pub proof fn lemma_signals_coalesce(signals: Seq<LoopEvent>)
    requires
        forall|i: int| 0 <= i < signals.len() ==> signals[i] is Signal,
    ensures
        phase_after(DebouncePhase::Pending, signals) == DebouncePhase::Pending,
        count_rebuilds(spec_run(DebouncePhase::Pending, signals)) == 0,
    decreases signals.len(),
{
    if signals.len() > 0 {
        assert(signals[0] is Signal);
        lemma_signals_coalesce(signals.drop_first());
        let run = spec_run(DebouncePhase::Pending, signals);
        assert(run[0] == LoopAction::Ignore);
        assert(run.drop_first() =~= spec_run(DebouncePhase::Pending, signals.drop_first()));
    }
}

/// Coalescing: however many mutation signals arrive within one debounce
/// window, the window's end asks for exactly one rebuild.
pub proof fn lemma_burst_rebuilds_once(signals: Seq<LoopEvent>)
    requires
        signals.len() >= 1,
        forall|i: int| 0 <= i < signals.len() ==> signals[i] is Signal,
    ensures
        count_rebuilds(
            spec_run(DebouncePhase::Idle, signals.push(LoopEvent::DebounceElapsed)),
        ) == 1,
{
    let events = signals.push(LoopEvent::DebounceElapsed);
    let rest = signals.drop_first().push(LoopEvent::DebounceElapsed);
    assert(events[0] is Signal);
    assert(spec_step(DebouncePhase::Idle, events[0]) == (
        DebouncePhase::Pending,
        LoopAction::ArmTimer,
    ));
    assert(events.drop_first() =~= rest);
    lemma_pending_burst_rebuilds_once(signals.drop_first());
    let run = spec_run(DebouncePhase::Idle, events);
    assert(run[0] == LoopAction::ArmTimer);
    assert(run.drop_first() =~= spec_run(DebouncePhase::Pending, rest));
}

/// Helper for [`lemma_burst_rebuilds_once`]: from inside the window, any
/// further signals followed by the window's end yield exactly one rebuild.
proof fn lemma_pending_burst_rebuilds_once(signals: Seq<LoopEvent>)
    requires
        forall|i: int| 0 <= i < signals.len() ==> signals[i] is Signal,
    ensures
        count_rebuilds(
            spec_run(DebouncePhase::Pending, signals.push(LoopEvent::DebounceElapsed)),
        ) == 1,
    decreases signals.len(),
{
    let events = signals.push(LoopEvent::DebounceElapsed);
    let run = spec_run(DebouncePhase::Pending, events);
    if signals.len() == 0 {
        assert(events[0] == LoopEvent::DebounceElapsed);
        assert(run[0] == LoopAction::Rebuild);
        assert(run.drop_first() =~= spec_run(DebouncePhase::Idle, events.drop_first()));
        assert(events.drop_first() =~= Seq::<LoopEvent>::empty());
        assert(count_rebuilds(run.drop_first()) == 0);
    } else {
        assert(events[0] is Signal);
        assert(run[0] == LoopAction::Ignore);
        assert(events.drop_first() =~= signals.drop_first().push(LoopEvent::DebounceElapsed));
        lemma_pending_burst_rebuilds_once(signals.drop_first());
        assert(run.drop_first() =~= spec_run(
            DebouncePhase::Pending,
            signals.drop_first().push(LoopEvent::DebounceElapsed),
        ));
    }
}

/// After the channel has closed the loop is inert: it never asks for
/// another rebuild, whatever else arrives.
pub proof fn lemma_ended_is_final(events: Seq<LoopEvent>)
    ensures
        phase_after(DebouncePhase::Ended, events) == DebouncePhase::Ended,
        count_rebuilds(spec_run(DebouncePhase::Ended, events)) == 0,
    decreases events.len(),
{
    if events.len() > 0 {
        lemma_ended_is_final(events.drop_first());
        let run = spec_run(DebouncePhase::Ended, events);
        assert(run[0] == LoopAction::Ignore);
        assert(run.drop_first() =~= spec_run(DebouncePhase::Ended, events.drop_first()));
    }
}

} // verus!
