//! Scenario tests for the stack, transaction and undo/redo engine.

use patchstack::error::{ErrorKind, StackError};
use patchstack::log::find_undo_state;
use patchstack::patch::Patch;
use patchstack::stack::Stack;
use patchstack::transaction::{PushOutcome, PushStatus, TransConfig};

fn p(name: &str, commit: u64) -> Patch {
    Patch { name: String::from(name), commit, empty: false }
}

fn names(v: &[&str]) -> Vec<String> {
    v.iter().map(|s| String::from(*s)).collect()
}

fn conf() -> TransConfig {
    TransConfig {
        use_index_and_worktree: true,
        allow_bad_head: false,
        discard_changes: false,
        allow_push_conflicts: false,
    }
}

fn stack_applied_three() -> Stack {
    Stack::load(
        String::from("main"),
        100,
        vec![p("p1", 101), p("p2", 102), p("p3", 103)],
        3,
        vec![],
    )
    .unwrap()
}

fn stack_unapplied_three() -> Stack {
    Stack::load(
        String::from("main"),
        100,
        vec![p("p1", 11), p("p2", 12), p("p3", 13)],
        0,
        vec![],
    )
    .unwrap()
}

#[test]
fn load_computes_head_from_applied() {
    let s = stack_applied_three();
    assert_eq!(s.base(), 100);
    assert_eq!(s.head(), 103);
    assert_eq!(s.applied_names(), names(&["p1", "p2", "p3"]));
    assert_eq!(s.unapplied_names(), Vec::<String>::new());
    assert_eq!(s.branch_name().as_str(), "main");
}

#[test]
fn load_empty_stack_head_is_base() {
    let s = Stack::load(String::from("main"), 42, vec![], 0, vec![]).unwrap();
    assert_eq!(s.head(), 42);
}

#[test]
fn load_rejects_boundary_out_of_range() {
    let r = Stack::load(String::from("main"), 1, vec![p("p1", 2)], 2, vec![]);
    match r {
        Err(StackError::Backend { .. }) => {}
        _ => panic!("expected a backend error"),
    }
}

#[test]
fn load_rejects_duplicate_names() {
    let r = Stack::load(
        String::from("main"),
        1,
        vec![p("p1", 2), p("p2", 3)],
        1,
        vec![p("p1", 4)],
    );
    match r {
        Err(StackError::Backend { .. }) => {}
        _ => panic!("expected a backend error"),
    }
}

// Scenario: popping every applied patch empties the applied partition,
// keeps the popped patches' order among the unapplied, and leaves the base
// unchanged.
#[test]
fn pop_all_applied_preserves_order() {
    let s = stack_applied_three();
    let mut t = s.setup_transaction(conf());
    t.pop_patches(&names(&["p1", "p2", "p3"]));
    let (s, r) = t.execute("pop all");
    assert!(r.is_ok());
    assert_eq!(s.applied_names(), Vec::<String>::new());
    assert_eq!(s.unapplied_names(), names(&["p1", "p2", "p3"]));
    assert_eq!(s.base(), 100);
    assert_eq!(s.head(), 100);
}

#[test]
fn pop_subset_moves_popped_before_unapplied() {
    let s = Stack::load(
        String::from("main"),
        100,
        vec![p("p1", 101), p("p2", 102), p("p3", 103), p("p4", 14)],
        3,
        vec![],
    )
    .unwrap();
    let mut t = s.setup_transaction(conf());
    t.pop_patches(&names(&["p2"]));
    let (s, r) = t.execute("pop p2");
    assert!(r.is_ok());
    assert_eq!(s.applied_names(), names(&["p1", "p3"]));
    assert_eq!(s.unapplied_names(), names(&["p2", "p4"]));
    assert_eq!(s.head(), 103);
}

// Scenario: pushing three patches with no conflicts applies them in order
// and the head is the chain of their commits.
#[test]
fn push_clean_applies_in_order() {
    let s = stack_unapplied_three();
    let mut t = s.setup_transaction(conf());
    let st = t.push_patches(
        &names(&["p1", "p2", "p3"]),
        false,
        &vec![
            PushOutcome::Clean { new_head: 201 },
            PushOutcome::Clean { new_head: 202 },
            PushOutcome::Clean { new_head: 203 },
        ],
    );
    assert!(matches!(st, PushStatus::Completed));
    let (s, r) = t.execute("push");
    assert!(r.is_ok());
    assert_eq!(s.applied_names(), names(&["p1", "p2", "p3"]));
    assert_eq!(s.unapplied_names(), Vec::<String>::new());
    assert_eq!(s.head(), 203);
}

// Scenario: with check_merged set, a patch found already merged upstream
// stays in the stack, applied and recorded as empty.
#[test]
fn push_check_merged_records_empty() {
    let s = Stack::load(
        String::from("main"),
        100,
        vec![p("p1", 11), p("p2", 12)],
        0,
        vec![],
    )
    .unwrap();
    let mut t = s.setup_transaction(conf());
    let st = t.push_patches(
        &names(&["p1", "p2"]),
        true,
        &vec![
            PushOutcome::AlreadyMerged { new_head: 201 },
            PushOutcome::Clean { new_head: 202 },
        ],
    );
    assert!(matches!(st, PushStatus::Completed));
    let (s, r) = t.execute("push merged");
    assert!(r.is_ok());
    assert_eq!(s.applied_names(), names(&["p1", "p2"]));
    assert!(s.parts.patches[0].empty);
    assert!(!s.parts.patches[1].empty);
    assert_eq!(s.head(), 202);
}

#[test]
fn push_without_check_merged_keeps_patch_nonempty() {
    let s = Stack::load(String::from("main"), 100, vec![p("p1", 11)], 0, vec![]).unwrap();
    let mut t = s.setup_transaction(conf());
    t.push_patches(
        &names(&["p1"]),
        false,
        &vec![PushOutcome::AlreadyMerged { new_head: 201 }],
    );
    let (s, _) = t.execute("push");
    assert!(!s.parts.patches[0].empty);
}

// Conflict stop semantics: p2 conflicts and conflicts may not land, so
// only p1 is applied, p2 and p3 stay unapplied in order, and the commit
// still happens with a conflict error surfaced after it.
#[test]
fn push_conflict_stops_and_surfaces_error() {
    let s = stack_unapplied_three();
    let mut t = s.setup_transaction(conf());
    let st = t.push_patches(
        &names(&["p1", "p2", "p3"]),
        false,
        &vec![
            PushOutcome::Clean { new_head: 201 },
            PushOutcome::Conflict { new_head: 902 },
            PushOutcome::Clean { new_head: 203 },
        ],
    );
    match st {
        PushStatus::PartialWithConflict { blocked_at } => assert_eq!(blocked_at, "p2"),
        PushStatus::Completed => panic!("expected a conflict"),
    }
    let (s, r) = t.execute("push");
    assert_eq!(
        r,
        Err(StackError::Conflicts { patch: Some(String::from("p2")) })
    );
    assert_eq!(s.applied_names(), names(&["p1"]));
    assert_eq!(s.unapplied_names(), names(&["p2", "p3"]));
    assert_eq!(s.head(), 201);
}

#[test]
fn push_conflict_lands_when_allowed() {
    let s = stack_unapplied_three();
    let mut cf = conf();
    cf.allow_push_conflicts = true;
    let mut t = s.setup_transaction(cf);
    t.push_patches(
        &names(&["p1", "p2", "p3"]),
        false,
        &vec![
            PushOutcome::Clean { new_head: 201 },
            PushOutcome::Conflict { new_head: 902 },
            PushOutcome::Clean { new_head: 203 },
        ],
    );
    let (s, r) = t.execute("push");
    assert_eq!(
        r,
        Err(StackError::Conflicts { patch: Some(String::from("p2")) })
    );
    assert_eq!(s.applied_names(), names(&["p1", "p2"]));
    assert_eq!(s.unapplied_names(), names(&["p3"]));
    assert_eq!(s.head(), 902);
}

// Partition closure on concrete values: pop and push move patches between
// partitions without losing or duplicating a name.
#[test]
fn pop_then_push_preserves_name_multiset() {
    let s = stack_applied_three();
    let mut t = s.setup_transaction(conf());
    t.pop_patches(&names(&["p2", "p3"]));
    t.push_patches(
        &names(&["p3"]),
        false,
        &vec![PushOutcome::Clean { new_head: 301 }],
    );
    let (s, r) = t.execute("reorder");
    assert!(r.is_ok());
    let mut all: Vec<String> = s.applied_names();
    all.extend(s.unapplied_names());
    all.extend(s.hidden_names());
    all.sort();
    assert_eq!(all, names(&["p1", "p2", "p3"]));
    assert_eq!(s.applied_names(), names(&["p1", "p3"]));
    assert_eq!(s.unapplied_names(), names(&["p2"]));
    assert_eq!(s.head(), 301);
}

// Atomicity: an aborted transaction leaves the stack exactly as loaded.
#[test]
fn abort_returns_original_unchanged() {
    let s = stack_applied_three();
    let before_names = s.applied_names();
    let before_head = s.head();
    let before_cursor = s.log.cursor;
    let mut t = s.setup_transaction(conf());
    t.pop_patches(&names(&["p1", "p2", "p3"]));
    let s = t.abort();
    assert_eq!(s.applied_names(), before_names);
    assert_eq!(s.head(), before_head);
    assert_eq!(s.log.cursor, before_cursor);
    assert_eq!(s.log.entries.len(), 1);
}

// A transaction that changed nothing appends no log entry.
#[test]
fn empty_transaction_appends_nothing() {
    let s = stack_applied_three();
    let mut t = s.setup_transaction(conf());
    t.pop_patches(&names(&["nope"]));
    let (s, r) = t.execute("noop");
    assert!(r.is_ok());
    assert_eq!(s.log.entries.len(), 1);
    assert_eq!(s.log.cursor, 0);
}

fn committed_once() -> Stack {
    // One committed transaction on top of the loaded state.
    let s = stack_applied_three();
    let mut t = s.setup_transaction(conf());
    t.pop_patches(&names(&["p3"]));
    let (s, r) = t.execute("pop p3");
    assert!(r.is_ok());
    s
}

// Undo/redo round trip on concrete values.
#[test]
fn undo_then_redo_reproduces_state() {
    let s = committed_once();
    assert_eq!(s.log.cursor, 1);
    let before_applied = s.applied_names();
    let before_head = s.head();

    // Undo one step.
    let undo_state = find_undo_state(&s, -1).unwrap();
    let mut t = s.setup_transaction(conf());
    t.reset_to_state(&undo_state);
    let (s, r) = t.execute("undo 1");
    assert!(r.is_ok());
    assert_eq!(s.log.cursor, 0);
    assert_eq!(s.applied_names(), names(&["p1", "p2", "p3"]));
    assert_eq!(s.head(), 103);

    // Redo one step.
    let redo_state = find_undo_state(&s, 1).unwrap();
    let mut t = s.setup_transaction(conf());
    t.reset_to_state(&redo_state);
    let (s, r) = t.execute("redo 1");
    assert!(r.is_ok());
    assert_eq!(s.log.cursor, 1);
    assert_eq!(s.applied_names(), before_applied);
    assert_eq!(s.head(), before_head);
    assert_eq!(s.log.entries.len(), 2);
}

// Scenario: undoing two steps when only one entry lies behind the cursor.
#[test]
fn undo_past_history_fails() {
    let s = committed_once();
    match find_undo_state(&s, -2) {
        Err(StackError::LogBounds) => {}
        _ => panic!("expected a log-bounds error"),
    }
    assert!(find_undo_state(&s, -1).is_ok());
}

// Scenario: redoing two steps after exactly one undo.
#[test]
fn redo_past_history_fails() {
    let s = committed_once();
    let undo_state = find_undo_state(&s, -1).unwrap();
    let mut t = s.setup_transaction(conf());
    t.reset_to_state(&undo_state);
    let (s, _) = t.execute("undo 1");
    match find_undo_state(&s, 2) {
        Err(StackError::LogBounds) => {}
        _ => panic!("expected a log-bounds error"),
    }
    assert!(find_undo_state(&s, 1).is_ok());
}

// Redo invalidation: any fresh mutating transaction makes redo fail.
#[test]
fn fresh_transaction_invalidates_redo() {
    let s = committed_once();
    let undo_state = find_undo_state(&s, -1).unwrap();
    let mut t = s.setup_transaction(conf());
    t.reset_to_state(&undo_state);
    let (s, _) = t.execute("undo 1");
    assert!(find_undo_state(&s, 1).is_ok());

    // A fresh mutation truncates the redo history.
    let mut t = s.setup_transaction(conf());
    t.pop_patches(&names(&["p1"]));
    let (s, r) = t.execute("pop p1");
    assert!(r.is_ok());
    match find_undo_state(&s, 1) {
        Err(StackError::LogBounds) => {}
        _ => panic!("expected a log-bounds error"),
    }
    assert_eq!(s.log.cursor as usize + 1, s.log.entries.len());
}

#[test]
fn redo_without_prior_undo_fails() {
    let s = committed_once();
    match find_undo_state(&s, 1) {
        Err(StackError::LogBounds) => {}
        _ => panic!("expected a log-bounds error"),
    }
}

#[test]
fn find_undo_state_zero_offset_is_current() {
    let s = committed_once();
    let st = find_undo_state(&s, 0).unwrap();
    assert_eq!(st.position, 1);
}

// Head consistency: after a successful execute the head is the commit of
// the top applied patch, or the base when none is applied.
#[test]
fn head_matches_replay_after_execute() {
    let s = stack_unapplied_three();
    let mut t = s.setup_transaction(conf());
    t.push_patches(
        &names(&["p1", "p2"]),
        false,
        &vec![
            PushOutcome::Clean { new_head: 501 },
            PushOutcome::Clean { new_head: 502 },
        ],
    );
    let (s, _) = t.execute("push two");
    assert_eq!(s.head(), s.parts.patches[s.parts.applied_count - 1].commit);
    let mut t = s.setup_transaction(conf());
    t.pop_patches(&names(&["p1", "p2"]));
    let (s, _) = t.execute("pop them");
    assert_eq!(s.head(), s.base());
}

#[test]
fn guards_detect_head_movement_and_protection() {
    let s = stack_applied_three();
    assert!(s.is_head_top(103));
    assert!(!s.is_head_top(999));
    assert!(s.check_head_top_mismatch(103).is_ok());
    assert_eq!(s.check_head_top_mismatch(999), Err(StackError::HeadTopMismatch));
    assert!(s.is_protected(Some(true)));
    assert!(!s.is_protected(Some(false)));
    assert!(!s.is_protected(None));
}

#[test]
fn log_external_mods_moves_base_and_head() {
    let s = stack_applied_three();
    let mut t = s.setup_transaction(conf());
    t.pop_patches(&names(&["p1", "p2", "p3"]));
    let (s, r) = t.execute("pull (pop)");
    assert!(r.is_ok());
    assert!(!s.is_head_top(700));
    let s = s.log_external_mods("pull", 700);
    assert_eq!(s.base(), 700);
    assert_eq!(s.head(), 700);
    assert_eq!(s.unapplied_names(), names(&["p1", "p2", "p3"]));
    assert_eq!(s.log.cursor as usize + 1, s.log.entries.len());
    // An external modification is a fresh state change: redo is gone.
    match find_undo_state(&s, 1) {
        Err(StackError::LogBounds) => {}
        _ => panic!("expected a log-bounds error"),
    }
}

#[test]
fn undo_two_steps_then_redo_two_steps() {
    // Two committed transactions on top of the loaded state.
    let s = stack_applied_three();
    let mut t = s.setup_transaction(conf());
    t.pop_patches(&names(&["p3"]));
    let (s, _) = t.execute("pop p3");
    let mut t = s.setup_transaction(conf());
    t.pop_patches(&names(&["p2"]));
    let (s, _) = t.execute("pop p2");
    assert_eq!(s.log.cursor, 2);
    assert_eq!(s.applied_names(), names(&["p1"]));

    let undo_state = find_undo_state(&s, -2).unwrap();
    assert_eq!(undo_state.position, 0);
    let mut t = s.setup_transaction(conf());
    t.reset_to_state(&undo_state);
    let (s, _) = t.execute("undo 2");
    assert_eq!(s.log.cursor, 0);
    assert_eq!(s.applied_names(), names(&["p1", "p2", "p3"]));
    assert_eq!(s.head(), 103);

    let redo_state = find_undo_state(&s, 2).unwrap();
    assert_eq!(redo_state.position, 2);
    let mut t = s.setup_transaction(conf());
    t.reset_to_state(&redo_state);
    let (s, _) = t.execute("redo 2");
    assert_eq!(s.log.cursor, 2);
    assert_eq!(s.applied_names(), names(&["p1"]));
    assert_eq!(s.log.entries.len(), 3);
}

#[test]
fn default_configuration_is_all_off() {
    let c = TransConfig::new();
    assert!(!c.use_index_and_worktree);
    assert!(!c.allow_bad_head);
    assert!(!c.discard_changes);
    assert!(!c.allow_push_conflicts);
}

#[test]
fn error_messages_name_the_failure() {
    assert_eq!(StackError::LogBounds.message(), "not enough undo history");
    assert_eq!(StackError::Protected.message(), "this branch is protected");
    assert_eq!(
        StackError::Conflicts { patch: Some(String::from("p2")) }.message(),
        "merge conflicts require manual resolution"
    );
}

#[test]
fn error_kinds_follow_the_taxonomy() {
    assert_eq!(StackError::Protected.kind(), ErrorKind::Precondition);
    assert_eq!(StackError::HeadTopMismatch.kind(), ErrorKind::Precondition);
    assert_eq!(StackError::NotInitialized.kind(), ErrorKind::Precondition);
    assert_eq!(StackError::DirtyWorktree.kind(), ErrorKind::Precondition);
    assert_eq!(StackError::ContradictoryArguments.kind(), ErrorKind::Precondition);
    assert_eq!(StackError::NoTrackingInformation.kind(), ErrorKind::Precondition);
    assert_eq!(StackError::UnknownPullPolicy.kind(), ErrorKind::Precondition);
    assert_eq!(
        StackError::Conflicts { patch: None }.kind(),
        ErrorKind::Conflict
    );
    assert_eq!(StackError::LogBounds.kind(), ErrorKind::LogBounds);
    assert_eq!(
        StackError::Backend { context: String::from("fetch") }.kind(),
        ErrorKind::Backend
    );
}
