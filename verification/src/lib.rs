//! Decision core of a "merge train" controller.
//!
//! A periodic control loop watches the open merge requests of one project
//! that are assigned to a bot account and, once per pass, turns a snapshot
//! of merge-request and pipeline state into a bounded, ordered batch of
//! actions: hand a request back to its author, cancel a stale pipeline,
//! rebase, or merge.  This crate holds the snapshot filtering, the triage
//! rules and the action scheduling — the pure logic — with contracts that
//! pin down every decision.  Talking to the code host is left to the caller.

pub mod model;
pub mod snapshot;
pub mod triage;
pub mod schedule;
