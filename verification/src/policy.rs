//! Pull-policy configuration values.
//!
//! A branch pulls upstream changes under one of three policies. The policy
//! is read from configuration as free text; parsing it is part of the
//! engine's decision logic, while reading the configuration keys is the
//! caller's.

use vstd::prelude::*;

use crate::error::StackError;

verus! {

/// How upstream changes are brought into the branch.
#[derive(Clone, Copy, Debug, PartialEq, Eq, Structural)]
pub enum PullPolicy {
    /// Run the configured pull command against the remote.
    Pull,
    /// Rebase onto the configured parent branch; no remote is involved.
    Rebase,
    /// Fetch from the remote, then rebase onto the fetched head.
    FetchRebase,
}

/// What parsing a policy spelling yields: exactly the three recognized
/// spellings succeed; anything else is rejected.
pub open spec fn parse_policy_spec(s: Seq<char>) -> Result<PullPolicy, StackError> {
    if s == "pull"@ {
        Ok(PullPolicy::Pull)
    } else if s == "rebase"@ {
        Ok(PullPolicy::Rebase)
    } else if s == "fetch-rebase"@ {
        Ok(PullPolicy::FetchRebase)
    } else {
        Err(StackError::UnknownPullPolicy)
    }
}

impl PullPolicy {
    /// Parses a pull-policy configuration value.
    pub fn from_str(s: &str) -> (r: Result<PullPolicy, StackError>)
        ensures
            r == parse_policy_spec(s@),
    {
        let t = String::from_str(s);
        if t == String::from_str("pull") {
            Ok(PullPolicy::Pull)
        } else if t == String::from_str("rebase") {
            Ok(PullPolicy::Rebase)
        } else if t == String::from_str("fetch-rebase") {
            Ok(PullPolicy::FetchRebase)
        } else {
            Err(StackError::UnknownPullPolicy)
        }
    }

    /// The configuration spelling of this policy.
    pub fn as_str(&self) -> (r: &'static str)
        ensures
            r@ == (match *self {
                PullPolicy::Pull => "pull"@,
                PullPolicy::Rebase => "rebase"@,
                PullPolicy::FetchRebase => "fetch-rebase"@,
            }),
    {
        match self {
            PullPolicy::Pull => "pull",
            PullPolicy::Rebase => "rebase",
            PullPolicy::FetchRebase => "fetch-rebase",
        }
    }
}

} // verus!
