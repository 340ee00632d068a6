//! Navigating the undo/redo log.
//!
//! A negative offset walks backward through committed snapshots (undo); a
//! positive offset walks forward toward the log head (redo), which is
//! possible only while the cursor is behind the head — that is, only when
//! the preceding action was itself an undo. Both directions fail with
//! `LogBounds` when the requested distance exceeds the available history.

use vstd::prelude::*;

use crate::error::StackError;
use crate::stack::{LogV, Stack, StackState, StackV, clone_state};
use crate::transaction::{Transaction, committed_fresh};

verus! {

/// Whether walking `offset` entries from the cursor stays inside the log.
pub open spec fn undo_target_valid(l: LogV, offset: int) -> bool {
    0 <= l.cursor + offset < l.entries.len()
}

/// Finds the snapshot `offset` entries away from the current cursor:
/// backward for undo (negative), forward for redo (positive). A redo
/// request when the cursor already stands at the log head — that is, when
/// the previous action was not an undo — falls outside the log and fails,
/// as does any request that exceeds the available history.
pub fn find_undo_state(stack: &Stack, offset: isize) -> (r: Result<StackState, StackError>)
    requires
        stack.wf(),
    ensures
        undo_target_valid(stack@.log, offset as int) ==> (r matches Ok(st) && st@
            == stack@.log.entries[stack@.log.cursor + offset as int]),
        !undo_target_valid(stack@.log, offset as int) ==> r == Err::<StackState, StackError>(
            StackError::LogBounds,
        ),
{
    let c = stack.log.cursor as i128;
    let o = offset as i128;
    let t = c + o;
    let len = stack.log.entries.len() as i128;
    if 0 <= t && t < len {
        let idx = t as usize;
        Ok(clone_state(&stack.log.entries[idx]))
    } else {
        Err(StackError::LogBounds)
    }
}

/// How a pure time-travel step transforms a stack: exactly what
/// `find_undo_state` (for an offset landing on entry `k`), then
/// `reset_to_state` with the found snapshot, then `execute` of that pure
/// reset produce, by those functions' contracts — the partitions of entry
/// `k` become current and the cursor moves to `k`, with the log entries
/// untouched.
pub open spec fn time_travel_rel(s: StackV, k: int, s2: StackV) -> bool {
    &&& s2.branch == s.branch
    &&& s2.parts =~= s.log.entries[k].parts
    &&& s2.log.entries == s.log.entries
    &&& s2.log.cursor == k
}

/// Undo/redo round trip: for any stack with at least one committed
/// transaction to undo, undoing one step and immediately redoing one step
/// reproduces the stack exactly — partitions, log entries and cursor. The
/// redo is guaranteed to be available after the undo.
pub proof fn lemma_undo_redo_round_trip(s0: Stack, s1: StackV, s2: StackV)
    requires
        s0.wf(),
        s0@.log.cursor >= 1,
        time_travel_rel(s0@, s0@.log.cursor - 1, s1),
        time_travel_rel(s1, s1.log.cursor + 1, s2),
    ensures
        undo_target_valid(s1.log, 1),
        s2.parts =~= s0@.parts,
        s2.log.entries == s0@.log.entries,
        s2.log.cursor == s0@.log.cursor,
        s2.branch == s0@.branch,
{
    assert(s2.parts =~= s0@.log.entries[s0@.log.cursor].parts);
}

/// Redo invalidation: a fresh mutating transaction commits with the
/// cursor at the log's newest entry, so any subsequent redo request, of
/// any step count, falls outside the log and fails with `LogBounds` —
/// regardless of prior undo history.
pub proof fn lemma_redo_invalidation(t: Transaction, label: Seq<char>, s: StackV, steps: int)
    requires
        t.wf(),
        t.dirty,
        committed_fresh(t, label, s),
        steps >= 1,
    ensures
        !undo_target_valid(s.log, steps),
{
}

} // verus!
