use devtools::channel::SignalChannel;
use devtools::debounce::{step, DebouncePhase, LoopAction, LoopEvent, DEBOUNCE_INTERVAL_MS};

fn run(mut phase: DebouncePhase, events: &[LoopEvent]) -> (DebouncePhase, Vec<LoopAction>) {
    let mut actions = Vec::new();
    for &event in events {
        let (next, action) = step(phase, event);
        phase = next;
        actions.push(action);
    }
    (phase, actions)
}

fn rebuilds(actions: &[LoopAction]) -> usize {
    actions.iter().filter(|a| matches!(a, LoopAction::Rebuild)).count()
}

#[test]
fn debounce_interval_is_short() {
    assert_eq!(DEBOUNCE_INTERVAL_MS, 10);
}

/// Any number of signals inside one debounce window coalesce into exactly
/// one rebuild at the window's end.
#[test]
fn burst_of_signals_rebuilds_once() {
    for burst in 1..6usize {
        let mut events = vec![LoopEvent::Signal; burst];
        events.push(LoopEvent::DebounceElapsed);
        let (phase, actions) = run(DebouncePhase::Idle, &events);
        assert_eq!(rebuilds(&actions), 1, "burst of {burst} signals");
        assert_eq!(phase, DebouncePhase::Idle);
    }
}

#[test]
fn first_signal_arms_the_timer_and_later_ones_are_ignored() {
    let (_, actions) = run(
        DebouncePhase::Idle,
        &[LoopEvent::Signal, LoopEvent::Signal, LoopEvent::Signal],
    );
    assert_eq!(actions, vec![LoopAction::ArmTimer, LoopAction::Ignore, LoopAction::Ignore]);
}

#[test]
fn elapsed_without_pending_window_is_ignored() {
    let (phase, actions) = run(DebouncePhase::Idle, &[LoopEvent::DebounceElapsed]);
    assert_eq!(actions, vec![LoopAction::Ignore]);
    assert_eq!(phase, DebouncePhase::Idle);
}

#[test]
fn two_windows_rebuild_twice() {
    let events = [
        LoopEvent::Signal,
        LoopEvent::Signal,
        LoopEvent::DebounceElapsed,
        LoopEvent::Signal,
        LoopEvent::DebounceElapsed,
    ];
    let (_, actions) = run(DebouncePhase::Idle, &events);
    assert_eq!(rebuilds(&actions), 2);
}

#[test]
fn channel_close_terminates_and_is_final() {
    let (phase, actions) = run(
        DebouncePhase::Pending,
        &[LoopEvent::ChannelClosed, LoopEvent::Signal, LoopEvent::DebounceElapsed],
    );
    assert_eq!(actions[0], LoopAction::Terminate);
    assert_eq!(&actions[1..], &[LoopAction::Ignore, LoopAction::Ignore]);
    assert_eq!(phase, DebouncePhase::Ended);
}

#[test]
fn signal_channel_counts_arrivals() {
    let mut ch = SignalChannel::new();
    assert!(!ch.try_take());
    ch.send();
    ch.send();
    assert!(ch.try_take());
    assert!(ch.try_take());
    assert!(!ch.try_take());
    assert!(!ch.is_closed());
    ch.close();
    assert!(ch.is_closed());
}
