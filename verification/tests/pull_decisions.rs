//! Tests for the pull workflow's decision logic and the command entry.

use patchstack::command::{CommandCategory, get_command};
use patchstack::error::StackError;
use patchstack::policy::PullPolicy;
use patchstack::workflow::{choose_command, resolve_pull_policy, resolve_remote};

#[test]
fn policy_parses_the_three_spellings() {
    assert_eq!(PullPolicy::from_str("pull"), Ok(PullPolicy::Pull));
    assert_eq!(PullPolicy::from_str("rebase"), Ok(PullPolicy::Rebase));
    assert_eq!(PullPolicy::from_str("fetch-rebase"), Ok(PullPolicy::FetchRebase));
    assert_eq!(
        PullPolicy::from_str("merge"),
        Err(StackError::UnknownPullPolicy)
    );
    assert_eq!(PullPolicy::from_str(""), Err(StackError::UnknownPullPolicy));
}

#[test]
fn policy_spellings_round_trip() {
    for pol in [PullPolicy::Pull, PullPolicy::Rebase, PullPolicy::FetchRebase] {
        assert_eq!(PullPolicy::from_str(pol.as_str()), Ok(pol));
    }
}

#[test]
fn policy_resolution_prefers_branch_configuration() {
    let b = String::from("rebase");
    let g = String::from("fetch-rebase");
    assert_eq!(
        resolve_pull_policy(Some(&b), Some(&g)),
        Ok(PullPolicy::Rebase)
    );
    assert_eq!(
        resolve_pull_policy(None, Some(&g)),
        Ok(PullPolicy::FetchRebase)
    );
    assert_eq!(resolve_pull_policy(None, None), Ok(PullPolicy::Pull));
    let bad = String::from("bogus");
    assert_eq!(
        resolve_pull_policy(Some(&bad), None),
        Err(StackError::UnknownPullPolicy)
    );
}

#[test]
fn remote_resolution_under_rebase_policy() {
    assert_eq!(
        resolve_remote(PullPolicy::Rebase, Some(String::from("origin")), None),
        Err(StackError::ContradictoryArguments)
    );
    assert_eq!(resolve_remote(PullPolicy::Rebase, None, None), Ok(None));
}

#[test]
fn remote_resolution_under_pull_policy() {
    assert_eq!(
        resolve_remote(
            PullPolicy::Pull,
            Some(String::from("upstream")),
            Some(String::from("origin"))
        ),
        Ok(Some(String::from("upstream")))
    );
    assert_eq!(
        resolve_remote(PullPolicy::FetchRebase, None, Some(String::from("origin"))),
        Ok(Some(String::from("origin")))
    );
    assert_eq!(
        resolve_remote(PullPolicy::Pull, None, None),
        Err(StackError::NoTrackingInformation)
    );
}

#[test]
fn command_choice_prefers_branch_then_global_then_default() {
    assert_eq!(
        choose_command(Some(String::from("git pull -r")), Some(String::from("git pull -x")), "git pull"),
        String::from("git pull -r")
    );
    assert_eq!(
        choose_command(None, Some(String::from("git pull -x")), "git pull"),
        String::from("git pull -x")
    );
    assert_eq!(choose_command(None, None, "git pull"), String::from("git pull"));
}

#[test]
fn redo_command_entry() {
    let (name, category) = get_command();
    assert_eq!(name, "redo");
    assert_eq!(category, CommandCategory::StackManipulation);
}
