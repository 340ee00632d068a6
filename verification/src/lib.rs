//! A patch-stack transaction engine.
//!
//! A *patch stack* is an ordered, named sequence of change-sets layered on
//! top of a movable base commit. This library holds the in-memory stack
//! representation, the transaction executor that applies and removes patches
//! atomically, and the undo/redo log of stack snapshots. The version-control
//! backend itself (ref storage, commit creation, merging) is an external
//! collaborator: callers perform those operations and feed their outcomes
//! back into the engine as plain values.
//!
//! - [`stack`]: the partitions, their invariants, loading and guards;
//! - [`transaction`]: pop, push, reset, and atomic commit or abort;
//! - [`log`]: navigating the undo/redo history;
//! - [`policy`], [`workflow`]: the pull workflow's decisions;
//! - [`error`]: the failure taxonomy;
//! - [`command`]: the redo command's registry entry.

use vstd::prelude::*;

pub mod command;
pub mod error;
pub mod log;
pub mod patch;
pub mod policy;
pub mod seq_facts;
pub mod stack;
pub mod transaction;
pub mod workflow;

verus! {

/// An opaque token naming a commit object in the backing repository.
///
/// The engine never inspects a commit; it only records which commit stands
/// at the base and at the top of the applied chain.
pub type CommitId = u64;

} // verus!
