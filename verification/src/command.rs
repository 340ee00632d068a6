//! The command registry entry for the redo command.

use vstd::prelude::*;

verus! {

/// Where a command sorts in the command listing.
#[derive(Clone, Copy, Debug, PartialEq, Eq, Structural)]
pub enum CommandCategory {
    /// Commands that mutate the patch stack.
    StackManipulation,
}

/// The registry entry of the redo command: its name and its category.
/// The command-line definition and the runner around it live with the
/// caller.
pub fn get_command() -> (r: (&'static str, CommandCategory))
    ensures
        r.0@ == "redo"@,
        r.1 == CommandCategory::StackManipulation,
{
    ("redo", CommandCategory::StackManipulation)
}

} // verus!
