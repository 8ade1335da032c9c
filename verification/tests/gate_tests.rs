use pybox::gate::{busy_message, GateOutcome, OwnerGate};

#[test]
fn initial_entry_takes_ownership_and_release_frees_it() {
    let mut gate = OwnerGate::new();
    assert_eq!(gate.enter(1), GateOutcome::Initial);
    gate.leave(GateOutcome::Initial);
    // The slot is free again: another thread may now take it.
    assert_eq!(gate.enter(2), GateOutcome::Initial);
}

#[test]
fn other_thread_is_rejected_while_slot_is_held() {
    let mut gate = OwnerGate::new();
    assert_eq!(gate.enter(1), GateOutcome::Initial);
    assert_eq!(gate.enter(2), GateOutcome::Rejected);
    // The rejection did not disturb ownership.
    assert_eq!(gate.enter(1), GateOutcome::Reentrant);
}

#[test]
fn owner_reenters_and_only_the_initial_call_releases() {
    let mut gate = OwnerGate::new();
    assert_eq!(gate.enter(7), GateOutcome::Initial);
    // A host upcall on the owning thread re-enters the reactor.
    let nested = gate.enter(7);
    assert_eq!(nested, GateOutcome::Reentrant);
    gate.leave(nested);
    // The reentrant return did not free the slot.
    assert_eq!(gate.enter(8), GateOutcome::Rejected);
    gate.leave(GateOutcome::Initial);
    assert_eq!(gate.enter(8), GateOutcome::Initial);
}

#[test]
fn rejected_caller_reports_the_busy_error() {
    assert_eq!(busy_message(), "PyboxReactor using by another thread!");
}
