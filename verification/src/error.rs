//! Errors of the command line and their messages.

use crate::text::{decimal, owned, push_decimal};
use vstd::prelude::*;
use vstd::string::StringExecFns;

verus! {

/// The errors `ggit` reports about its environment.
#[derive(Debug, Clone, Copy, PartialEq, Eq, Structural)]
pub enum GgitError {
    MissingGit,
}

impl GgitError {
    /// The message shown for the error.
    pub fn message(&self) -> (r: String)
        ensures
            r@ == "could not run `git`. Make sure Git is installed and available on PATH"@,
    {
        owned("could not run `git`. Make sure Git is installed and available on PATH")
    }
}

/// A request the command line refuses, with what the user can do about it.
#[derive(Debug, Clone, PartialEq, Eq)]
pub enum CommandError {
    /// `--verbose` and `--quiet` were both given.
    ConflictingVerbosity,
    /// No tracked repository name matched the filter.
    NoFilterMatch(String),
    /// No tracked repository has the path.
    NoPathMatch(String),
    /// The registry is empty.
    NothingTracked,
    /// `remove` was given neither a filter nor a path.
    MissingSelector,
    /// `remove` matched this many repositories without `--yes`.
    RemovalNeedsConfirmation(usize),
    /// `clear` would remove this many repositories without `--yes`.
    ClearNeedsConfirmation(usize),
    /// A pull failed in the named repository and the run stopped there.
    PullStopped(String),
}

/// The message of a command error.
pub open spec fn message_text(e: CommandError) -> Seq<char> {
    match e {
        CommandError::ConflictingVerbosity => "--verbose and --quiet cannot be used together"@,
        CommandError::NoFilterMatch(f) => "No tracked repositories matched filter `"@ + f@ + "`."@,
        CommandError::NoPathMatch(p) => "No tracked repository matched path `"@ + p@ + "`."@,
        CommandError::NothingTracked =>
            "No repositories are tracked yet. Run `ggit scan .` from a directory that contains Git repositories."@,
        CommandError::MissingSelector =>
            "Provide --filter <name> or --path <path> to remove repositories."@,
        CommandError::RemovalNeedsConfirmation(n) => decimal(n as nat)
            + " repositories matched. Rerun with --yes to remove them all."@,
        CommandError::ClearNeedsConfirmation(n) => "This would remove "@ + decimal(n as nat)
            + " repositories. Rerun with `ggit clear --yes` to confirm."@,
        CommandError::PullStopped(name) => "Stopping after failure in "@ + name@
            + ". Rerun with --continue-on-error to continue past failures."@,
    }
}

impl CommandError {
    /// The message shown for the error.
    pub fn message(&self) -> (r: String)
        ensures
            r@ == message_text(*self),
    {
        match self {
            CommandError::ConflictingVerbosity => owned(
                "--verbose and --quiet cannot be used together",
            ),
            CommandError::NoFilterMatch(f) => {
                let mut r = owned("No tracked repositories matched filter `");
                r.append(f.as_str());
                r.append("`.");
                r
            },
            CommandError::NoPathMatch(p) => {
                let mut r = owned("No tracked repository matched path `");
                r.append(p.as_str());
                r.append("`.");
                r
            },
            CommandError::NothingTracked => owned(
                "No repositories are tracked yet. Run `ggit scan .` from a directory that contains Git repositories.",
            ),
            CommandError::MissingSelector => owned(
                "Provide --filter <name> or --path <path> to remove repositories.",
            ),
            CommandError::RemovalNeedsConfirmation(n) => {
                let mut r = String::new();
                push_decimal(&mut r, *n);
                r.append(" repositories matched. Rerun with --yes to remove them all.");
                r
            },
            CommandError::ClearNeedsConfirmation(n) => {
                let mut r = owned("This would remove ");
                push_decimal(&mut r, *n);
                r.append(" repositories. Rerun with `ggit clear --yes` to confirm.");
                r
            },
            CommandError::PullStopped(name) => {
                let mut r = owned("Stopping after failure in ");
                r.append(name.as_str());
                r.append(". Rerun with --continue-on-error to continue past failures.");
                r
            },
        }
    }
}

} // verus!
