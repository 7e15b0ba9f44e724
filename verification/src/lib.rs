//! A two-party rendezvous point with a bounded wait.
//!
//! Two independent callers that present the same identifier pair up: the
//! first to arrive registers a wait slot and suspends, the second finds that
//! slot, signals its owner, and both report `Matched`. A lone caller gives up
//! after a fixed deadline and reports `TimedOut`. The registry holding the
//! pending slots, the atomic match-or-insert decision, and the cleanup that
//! keeps state from going stale are verified here; the surrounding runtime
//! (request routing, the actual suspension and timer) drives these steps.
pub mod coordinator;
pub mod laws;
pub mod registry;
