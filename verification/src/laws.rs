//! The rendezvous guarantees, proved over the registry's model.
//!
//! For one identifier, registry operations are totally ordered by acquisition
//! of the registry's exclusion; each statement below is about one such order
//! of arrivals and cleanups, written over the spec functions that the
//! registry's operations are specified with: `arrival_decision` and
//! `registry_after_arrival` for the match-or-insert step,
//! `registry_after_timeout` for the timeout cleanup.
use vstd::prelude::*;

use crate::coordinator::Outcome;
use crate::coordinator::WaitEvent;
use crate::coordinator::wait_outcome;
use crate::registry::Decision;
use crate::registry::arrival_decision;
use crate::registry::registry_after_arrival;
use crate::registry::registry_after_timeout;

verus! {

/// Pairing: for an identifier with no pending slot, of two arrivals the
/// first registers its slot and the second pairs with exactly that slot; the
/// second party reports `Matched` at once, and the first party's completion
/// signal fires, so it too reports `Matched`.
pub proof fn lemma_pairing(m: Map<Seq<char>, u64>, k: Seq<char>, s1: u64)
    requires
        !m.contains_key(k),
    ensures
        arrival_decision(m, k) == Decision::Registered,
        arrival_decision(registry_after_arrival(m, k, s1), k) == (Decision::Matched {
            partner: s1,
        }),
        wait_outcome(WaitEvent::Signal) == Outcome::Matched,
{
}

/// Isolation: an arrival at one identifier neither observes nor disturbs
/// another identifier's pending slot; rendezvous on distinct identifiers
/// never interact.
pub proof fn lemma_isolation(m: Map<Seq<char>, u64>, k1: Seq<char>, k2: Seq<char>, s: u64)
    requires
        k1 != k2,
    ensures
        registry_after_arrival(m, k1, s).contains_key(k2) == m.contains_key(k2),
        m.contains_key(k2) ==> registry_after_arrival(m, k1, s)[k2] == m[k2],
        arrival_decision(registry_after_arrival(m, k1, s), k2) == arrival_decision(m, k2),
        registry_after_timeout(m, k1, s).contains_key(k2) == m.contains_key(k2),
        m.contains_key(k2) ==> registry_after_timeout(m, k1, s)[k2] == m[k2],
{
}

/// Cleanup after timeout: when a wait ends by deadline the waiter's slot is
/// no longer pending — the cleanup removed it, unless a matcher already had —
/// so a subsequent arrival at the same identifier registers afresh instead of
/// matching stale state. The premise says the entry for `k`, if any, still is
/// the timed-out waiter's own slot: a waiter that was matched observes its
/// signal and does not time out.
pub proof fn lemma_cleanup_after_timeout(m: Map<Seq<char>, u64>, k: Seq<char>, s: u64)
    requires
        m.contains_key(k) ==> m[k] == s,
    ensures
        !registry_after_timeout(m, k, s).contains_key(k),
        arrival_decision(registry_after_timeout(m, k, s), k) == Decision::Registered,
{
}

/// Cleanup after match: the moment a pair matches on an identifier, its slot
/// leaves the registry, so a third arrival at that identifier registers a
/// brand-new slot and starts an independent wait, never an instant match.
pub proof fn lemma_cleanup_after_match(m: Map<Seq<char>, u64>, k: Seq<char>, s2: u64)
    requires
        m.contains_key(k),
    ensures
        arrival_decision(m, k) == (Decision::Matched { partner: m[k] }),
        !registry_after_arrival(m, k, s2).contains_key(k),
        arrival_decision(registry_after_arrival(m, k, s2), k) == Decision::Registered,
{
}

/// No double-match: among three arrivals at one identifier, in the order the
/// registry's exclusion admits them and starting with no pending slot,
/// exactly one pair matches. The first registers, the second pairs with the
/// first's slot, and the spare third registers a new slot and waits — it
/// cannot pair with either of the first two.
pub proof fn lemma_no_double_match(m: Map<Seq<char>, u64>, k: Seq<char>, s1: u64, s2: u64)
    requires
        !m.contains_key(k),
    ensures
        arrival_decision(m, k) == Decision::Registered,
        arrival_decision(registry_after_arrival(m, k, s1), k) == (Decision::Matched {
            partner: s1,
        }),
        arrival_decision(
            registry_after_arrival(registry_after_arrival(m, k, s1), k, s2),
            k,
        ) == Decision::Registered,
{
}

/// A lone wait ends in `TimedOut`: with no second arrival the only event that
/// can end the first party's suspension is its deadline, and the deadline
/// event resolves to `TimedOut`, never to `Matched`.
pub proof fn lemma_lone_wait_times_out()
    ensures
        wait_outcome(WaitEvent::Deadline) == Outcome::TimedOut,
        wait_outcome(WaitEvent::Deadline) != Outcome::Matched,
{
}

} // verus!
