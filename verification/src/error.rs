//! The failure taxonomy of the engine.
//!
//! Precondition failures are detected before any transaction opens and have
//! no side effects. A conflict is the one failure that is still a committed
//! outcome: the repository visibly holds the conflicted patch. Log-bounds
//! failures are pure query failures. Backend failures come from the
//! version-control backend and are reported by the caller that drove it.

use vstd::prelude::*;

verus! {

/// Every typed failure a public operation of the engine can return.
#[derive(Clone, Debug, PartialEq, Eq)]
pub enum StackError {
    /// The branch has no recorded stack metadata.
    NotInitialized,
    /// Branch-level configuration marks the branch as protected; mutating
    /// operations must refuse.
    Protected,
    /// The branch's actual head commit differs from the stack's recorded
    /// top-of-applied commit: something moved the head externally.
    HeadTopMismatch,
    /// The index or worktree holds uncommitted modifications.
    DirtyWorktree,
    /// An explicit remote repository was supplied under a policy that
    /// forbids one.
    ContradictoryArguments,
    /// No remote is configured for the branch and none was supplied.
    NoTrackingInformation,
    /// An unrecognized pull-policy configuration value.
    UnknownPullPolicy,
    /// A patch reapplication could not be merged cleanly. When the failing
    /// patch is known, `patch` names it; an external operation that merely
    /// reported conflicts carries `None`.
    Conflicts { patch: Option<String> },
    /// An undo/redo request exceeds the available history, or a redo was
    /// requested when the previous action was not an undo.
    LogBounds,
    /// The version-control backend itself failed; `context` says during
    /// which step.
    Backend { context: String },
}

/// The four classes of the error taxonomy.
#[derive(Clone, Copy, Debug, PartialEq, Eq, Structural)]
pub enum ErrorKind {
    /// Checked synchronously before any mutation; zero side effects.
    Precondition,
    /// Raised after a partial state has been committed for manual resolution.
    Conflict,
    /// A pure query failure; no mutation was attempted.
    LogBounds,
    /// Propagated from the backend with context of the failing step.
    Backend,
}

/// The class an error belongs to, as a spec-level function.
pub open spec fn kind_of(e: StackError) -> ErrorKind {
    match e {
        StackError::Conflicts { .. } => ErrorKind::Conflict,
        StackError::LogBounds => ErrorKind::LogBounds,
        StackError::Backend { .. } => ErrorKind::Backend,
        _ => ErrorKind::Precondition,
    }
}

/// The human-readable phrase for each error.
pub open spec fn message_of(e: StackError) -> Seq<char> {
    match e {
        StackError::NotInitialized => "branch not initialized"@,
        StackError::Protected => "this branch is protected"@,
        StackError::HeadTopMismatch => "HEAD and stack top are not the same"@,
        StackError::DirtyWorktree => "index or worktree holds uncommitted changes"@,
        StackError::ContradictoryArguments => "a repository cannot be specified under this pull-policy"@,
        StackError::NoTrackingInformation => "no tracking information for the current branch"@,
        StackError::UnknownPullPolicy => "unsupported pull-policy"@,
        StackError::Conflicts { .. } => "merge conflicts require manual resolution"@,
        StackError::LogBounds => "not enough undo history"@,
        StackError::Backend { .. } => "the version-control backend failed"@,
    }
}

impl StackError {
    /// A human-readable phrase for the error; the fields carrying names
    /// and context are for the caller to add.
    pub fn message(&self) -> (r: String)
        ensures
            r@ == message_of(*self),
    {
        match self {
            StackError::NotInitialized => String::from_str("branch not initialized"),
            StackError::Protected => String::from_str("this branch is protected"),
            StackError::HeadTopMismatch => String::from_str("HEAD and stack top are not the same"),
            StackError::DirtyWorktree => String::from_str(
                "index or worktree holds uncommitted changes",
            ),
            StackError::ContradictoryArguments => String::from_str(
                "a repository cannot be specified under this pull-policy",
            ),
            StackError::NoTrackingInformation => String::from_str(
                "no tracking information for the current branch",
            ),
            StackError::UnknownPullPolicy => String::from_str("unsupported pull-policy"),
            StackError::Conflicts { .. } => String::from_str(
                "merge conflicts require manual resolution",
            ),
            StackError::LogBounds => String::from_str("not enough undo history"),
            StackError::Backend { .. } => String::from_str("the version-control backend failed"),
        }
    }

    /// Classifies this error under the four-way taxonomy.
    pub fn kind(&self) -> (k: ErrorKind)
        ensures
            k == kind_of(*self),
    {
        match self {
            StackError::Conflicts { .. } => ErrorKind::Conflict,
            StackError::LogBounds => ErrorKind::LogBounds,
            StackError::Backend { .. } => ErrorKind::Backend,
            _ => ErrorKind::Precondition,
        }
    }
}

} // verus!
