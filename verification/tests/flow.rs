use rendezvous::coordinator::finish_wait;
use rendezvous::coordinator::outcome_body;
use rendezvous::coordinator::outcome_status;
use rendezvous::coordinator::slot_step;
use rendezvous::coordinator::Outcome;
use rendezvous::coordinator::SlotState;
use rendezvous::coordinator::WaitEvent;
use rendezvous::coordinator::DEADLINE_SECS;
use rendezvous::registry::Decision;
use rendezvous::registry::Registry;

#[test]
fn pairing_two_arrivals_both_match() {
    let mut registry = Registry::new();
    let key = String::from("x");

    let first = registry.match_or_insert(key.clone(), 1);
    assert_eq!(first, Decision::Registered);

    let second = registry.match_or_insert(key.clone(), 2);
    assert_eq!(second, Decision::Matched { partner: 1 });
    assert_eq!(outcome_body(Outcome::Matched), "Synced");

    // The matcher signalled slot 1, so the first party's wait ends on Signal.
    let outcome = finish_wait(&mut registry, &key, 1, WaitEvent::Signal);
    assert_eq!(outcome, Outcome::Matched);
    assert_eq!(outcome_body(outcome), "Synced");
    assert!(!registry.contains(&key));
}

#[test]
fn isolation_distinct_identifiers_never_match() {
    let mut registry = Registry::new();
    let k1 = String::from("k1");
    let k2 = String::from("k2");

    assert_eq!(registry.match_or_insert(k1.clone(), 1), Decision::Registered);
    // The second identifier does not pair with the first one's slot.
    assert_eq!(registry.match_or_insert(k2.clone(), 2), Decision::Registered);

    // Each unpaired wait times out on its own.
    assert_eq!(
        finish_wait(&mut registry, &k1, 1, WaitEvent::Deadline),
        Outcome::TimedOut
    );
    assert_eq!(
        finish_wait(&mut registry, &k2, 2, WaitEvent::Deadline),
        Outcome::TimedOut
    );
    assert!(!registry.contains(&k1));
    assert!(!registry.contains(&k2));
}

#[test]
fn lone_arrival_times_out() {
    let mut registry = Registry::new();
    let key = String::from("y");

    assert_eq!(registry.match_or_insert(key.clone(), 5), Decision::Registered);
    assert!(registry.contains(&key));

    let outcome = finish_wait(&mut registry, &key, 5, WaitEvent::Deadline);
    assert_eq!(outcome, Outcome::TimedOut);
    assert_eq!(outcome_body(outcome), "Timeout");
    assert_eq!(outcome_status(outcome), 408);
    assert!(!registry.contains(&key));
}

#[test]
fn deadline_is_ten_seconds() {
    assert_eq!(DEADLINE_SECS, 10);
}

#[test]
fn cleanup_after_timeout_gives_fresh_wait() {
    let mut registry = Registry::new();
    let key = String::from("k");

    assert_eq!(registry.match_or_insert(key.clone(), 1), Decision::Registered);
    assert_eq!(
        finish_wait(&mut registry, &key, 1, WaitEvent::Deadline),
        Outcome::TimedOut
    );

    // A later arrival is a fresh first party, not an instant match.
    assert_eq!(registry.match_or_insert(key.clone(), 2), Decision::Registered);
    assert!(registry.contains(&key));
}

#[test]
fn cleanup_after_match_gives_fresh_wait() {
    let mut registry = Registry::new();
    let key = String::from("k");

    assert_eq!(registry.match_or_insert(key.clone(), 1), Decision::Registered);
    assert_eq!(
        registry.match_or_insert(key.clone(), 2),
        Decision::Matched { partner: 1 }
    );

    // The third arrival starts an independent new wait.
    assert_eq!(registry.match_or_insert(key.clone(), 3), Decision::Registered);
    assert!(registry.contains(&key));
}

#[test]
fn no_double_match_among_three_callers() {
    let mut registry = Registry::new();
    let key = String::from("k");

    let first = registry.match_or_insert(key.clone(), 1);
    let second = registry.match_or_insert(key.clone(), 2);
    let third = registry.match_or_insert(key.clone(), 3);

    // Exactly one pair matched, and it paired with the first slot only.
    assert_eq!(first, Decision::Registered);
    assert_eq!(second, Decision::Matched { partner: 1 });
    assert_eq!(third, Decision::Registered);

    // The spare caller waits and, unpaired, times out.
    assert_eq!(
        finish_wait(&mut registry, &key, 3, WaitEvent::Deadline),
        Outcome::TimedOut
    );
    assert!(!registry.contains(&key));
}

#[test]
fn stale_timeout_leaves_newer_slot_alone() {
    let mut registry = Registry::new();
    let key = String::from("k");

    assert_eq!(registry.match_or_insert(key.clone(), 1), Decision::Registered);
    assert_eq!(
        registry.match_or_insert(key.clone(), 2),
        Decision::Matched { partner: 1 }
    );
    assert_eq!(registry.match_or_insert(key.clone(), 3), Decision::Registered);

    // Slot 1's deadline fires late: the entry now belongs to slot 3 and must
    // not be removed by the stale cleanup.
    assert!(!registry.remove_if_same(&key, 1));
    assert!(registry.contains(&key));
    assert_eq!(
        registry.match_or_insert(key.clone(), 4),
        Decision::Matched { partner: 3 }
    );
}

#[test]
fn slot_states_are_terminal() {
    assert_eq!(
        slot_step(SlotState::Registered, WaitEvent::Signal),
        SlotState::Matched
    );
    assert_eq!(
        slot_step(SlotState::Registered, WaitEvent::Deadline),
        SlotState::Abandoned
    );
    // A completion signal reaching an abandoned slot is discarded.
    assert_eq!(
        slot_step(SlotState::Abandoned, WaitEvent::Signal),
        SlotState::Abandoned
    );
    assert_eq!(
        slot_step(SlotState::Matched, WaitEvent::Deadline),
        SlotState::Matched
    );
}

#[test]
fn outcome_maps_to_response() {
    assert_eq!(outcome_body(Outcome::Matched), "Synced");
    assert_eq!(outcome_status(Outcome::Matched), 200);
    assert_eq!(outcome_body(Outcome::TimedOut), "Timeout");
    assert_eq!(outcome_status(Outcome::TimedOut), 408);
}
