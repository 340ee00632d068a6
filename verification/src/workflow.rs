//! Decisions of the pull workflow.
//!
//! The workflow itself runs outside the engine: it reads configuration
//! keys, executes the configured pull, fetch or rebase commands and drives
//! a transaction. Every decision it takes — which policy applies, which
//! remote to use, which command line to run — is made here, from plain
//! configuration values.

use vstd::prelude::*;

use crate::error::StackError;
use crate::policy::{PullPolicy, parse_policy_spec};

verus! {

/// Resolves the pull policy from the branch-scoped configuration value,
/// falling back to the globally configured one and then to the default
/// `pull` policy. An unrecognized spelling is rejected.
pub fn resolve_pull_policy(branch_value: Option<&String>, global_value: Option<&String>) -> (r:
    Result<PullPolicy, StackError>)
    ensures
        r == (match branch_value {
            Some(b) => parse_policy_spec(b@),
            None => match global_value {
                Some(g) => parse_policy_spec(g@),
                None => Ok::<PullPolicy, StackError>(PullPolicy::Pull),
            },
        }),
{
    match branch_value {
        Some(b) => PullPolicy::from_str(b.as_str()),
        None => match global_value {
            Some(g) => PullPolicy::from_str(g.as_str()),
            None => Ok(PullPolicy::Pull),
        },
    }
}

/// Resolves which remote repository to pull or fetch from. Under the
/// rebase policy no remote is involved, and naming one explicitly is
/// contradictory. Under the pull and fetch-rebase policies an explicitly
/// named repository wins over the branch's configured remote, and having
/// neither means the branch carries no tracking information.
pub fn resolve_remote(
    policy: PullPolicy,
    repository: Option<String>,
    parent_remote: Option<String>,
) -> (r: Result<Option<String>, StackError>)
    ensures
        policy is Rebase ==> r == (match repository {
            Some(_) => Err::<Option<String>, StackError>(StackError::ContradictoryArguments),
            None => Ok::<Option<String>, StackError>(None),
        }),
        !(policy is Rebase) ==> r == (match repository {
            Some(rep) => Ok::<Option<String>, StackError>(Some(rep)),
            None => match parent_remote {
                Some(p) => Ok::<Option<String>, StackError>(Some(p)),
                None => Err::<Option<String>, StackError>(StackError::NoTrackingInformation),
            },
        }),
{
    match policy {
        PullPolicy::Rebase => {
            if repository.is_some() {
                Err(StackError::ContradictoryArguments)
            } else {
                Ok(None)
            }
        },
        PullPolicy::Pull | PullPolicy::FetchRebase => {
            match repository {
                Some(rep) => Ok(Some(rep)),
                None => match parent_remote {
                    Some(p) => Ok(Some(p)),
                    None => Err(StackError::NoTrackingInformation),
                },
            }
        },
    }
}

/// Chooses the external command line to run: the branch-scoped
/// configuration value wins, then the global one, then the built-in
/// default.
pub fn choose_command(
    branch_value: Option<String>,
    global_value: Option<String>,
    default: &str,
) -> (r: String)
    ensures
        r@ == (match branch_value {
            Some(b) => b@,
            None => match global_value {
                Some(g) => g@,
                None => default@,
            },
        }),
{
    match branch_value {
        Some(b) => b,
        None => match global_value {
            Some(g) => g,
            None => String::from_str(default),
        },
    }
}

} // verus!
