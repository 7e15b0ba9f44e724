//! The rendezvous coordinator's decision steps.
//!
//! A call `arrive(identifier)` is, to the registry, two short critical
//! sections with a suspension between them. The first is
//! [`Registry::match_or_insert`]: the caller either pairs with a pending slot
//! (second party, done at once) or registers its own (first party). The first
//! party then suspends until its completion signal fires or the deadline
//! elapses — outside any exclusion, driven by the surrounding runtime — and
//! [`finish_wait`] turns whichever event won into the call's outcome,
//! performing the timeout cleanup where the deadline won.
use vstd::prelude::*;

use crate::registry::Registry;
use crate::registry::registry_after_timeout;

verus! {

/// How long a first party waits for a second, in seconds.
pub const DEADLINE_SECS: u64 = 10;

/// The two outcomes of `arrive`: a second party arrived in time, or none did.
/// `TimedOut` is a normal terminal result, not a fault; the caller may
/// re-arrive with the same identifier to start an independent new wait.
#[derive(PartialEq, Eq, Structural, Clone, Copy, Debug)]
pub enum Outcome {
    Matched,
    TimedOut,
}

/// What ends a first party's suspension: its completion signal fired, or its
/// deadline elapsed. When both are ready the runtime must report `Signal`:
/// the waiter always prefers an observed completion over a deadline it raced.
#[derive(PartialEq, Eq, Structural, Clone, Copy, Debug)]
pub enum WaitEvent {
    Signal,
    Deadline,
}

/// A slot's lifecycle: `Registered` while its owner waits, then exactly one
/// of the terminal states — `Matched` when a second party completed it,
/// `Abandoned` when its owner's timeout cleanup took it back.
#[derive(PartialEq, Eq, Structural, Clone, Copy, Debug)]
pub enum SlotState {
    Registered,
    Matched,
    Abandoned,
}

/// The outcome a first party reports for the event that ended its wait.
pub open spec fn wait_outcome(event: WaitEvent) -> Outcome {
    match event {
        WaitEvent::Signal => Outcome::Matched,
        WaitEvent::Deadline => Outcome::TimedOut,
    }
}

/// A slot's next state when `event` reaches it. A slot leaves `Registered`
/// on whichever event comes first and then never moves again: in particular a
/// completion signal reaching an `Abandoned` slot is discarded, a safe no-op
/// rather than an error.
pub open spec fn slot_next(state: SlotState, event: WaitEvent) -> SlotState {
    match state {
        SlotState::Registered => match event {
            WaitEvent::Signal => SlotState::Matched,
            WaitEvent::Deadline => SlotState::Abandoned,
        },
        SlotState::Matched => SlotState::Matched,
        SlotState::Abandoned => SlotState::Abandoned,
    }
}

/// Advance a slot's state for one event.
pub fn slot_step(state: SlotState, event: WaitEvent) -> (next: SlotState)
    ensures
        next == slot_next(state, event),
{
    match state {
        SlotState::Registered => match event {
            WaitEvent::Signal => SlotState::Matched,
            WaitEvent::Deadline => SlotState::Abandoned,
        },
        SlotState::Matched => SlotState::Matched,
        SlotState::Abandoned => SlotState::Abandoned,
    }
}

/// A slot never re-enters `Registered`, and its terminal states are truly
/// terminal: once `Matched` or `Abandoned`, every further event — a late
/// completion signal included — leaves it where it is.
pub proof fn lemma_slot_terminal(state: SlotState, event: WaitEvent)
    ensures
        slot_next(state, event) != SlotState::Registered,
        state != SlotState::Registered ==> slot_next(state, event) == state,
{
}

/// End a first party's wait on the event that won the race. A completion
/// signal means a matcher already removed this waiter's slot under exclusion,
/// so the registry is left alone and the outcome is `Matched`. An elapsed
/// deadline means the waiter takes its own slot back — but only if the entry
/// for `key` still is its own slot `slot`; a matcher may have removed it and
/// a fresh arrival re-registered in the race window — and the outcome is
/// `TimedOut`.
pub fn finish_wait(registry: &mut Registry, key: &String, slot: u64, event: WaitEvent) -> (outcome:
    Outcome)
    requires
        old(registry).wf(),
    ensures
        final(registry).wf(),
        outcome == wait_outcome(event),
        event == WaitEvent::Signal ==> final(registry)@ == old(registry)@,
        event == WaitEvent::Deadline ==> final(registry)@ == registry_after_timeout(
            old(registry)@,
            key@,
            slot,
        ),
{
    match event {
        WaitEvent::Signal => Outcome::Matched,
        WaitEvent::Deadline => {
            let _ = registry.remove_if_same(key, slot);
            Outcome::TimedOut
        },
    }
}

/// The response body for an outcome, as the boundary reports it.
pub fn outcome_body(outcome: Outcome) -> (body: &'static str)
    ensures
        outcome == Outcome::Matched ==> body@ == "Synced"@,
        outcome == Outcome::TimedOut ==> body@ == "Timeout"@,
{
    match outcome {
        Outcome::Matched => "Synced",
        Outcome::TimedOut => "Timeout",
    }
}

/// The response status for an outcome: success for `Matched`, the
/// client-timeout status for `TimedOut`.
pub fn outcome_status(outcome: Outcome) -> (status: u16)
    ensures
        outcome == Outcome::Matched ==> status == 200,
        outcome == Outcome::TimedOut ==> status == 408,
{
    match outcome {
        Outcome::Matched => 200,
        Outcome::TimedOut => 408,
    }
}

} // verus!
