//! The command line of `ggit`: its global flags and subcommands.

use crate::error::CommandError;
use vstd::prelude::*;

verus! {

/// The parsed command line.
#[derive(Debug, Clone)]
pub struct Cli {
    pub verbose: bool,
    pub quiet: bool,
    pub command: Commands,
}

/// The subcommands and their options; paths are given as text.
#[derive(Debug, Clone)]
#[allow(inconsistent_fields)]
pub enum Commands {
    Scan {
        path: String,
        maxdepth: Option<usize>,
        include_hidden: bool,
        force: bool,
        dry_run: bool,
    },
    Pull {
        filter: Option<String>,
        path: Option<String>,
        dry_run: bool,
        continue_on_error: bool,
    },
    Status {
        filter: Option<String>,
        path: Option<String>,
        short: bool,
        refresh_remotes: bool,
    },
    List {
        filter: Option<String>,
    },
    Remove {
        filter: Option<String>,
        path: Option<String>,
        yes: bool,
    },
    Clear {
        yes: bool,
    },
    Doctor,
}

/// Refuses `--verbose` together with `--quiet`.
pub fn check_global_flags(cli: &Cli) -> (r: Result<(), CommandError>)
    ensures
        r is Err <==> cli.verbose && cli.quiet,
        r matches Err(e) ==> e == CommandError::ConflictingVerbosity,
{
    if cli.verbose && cli.quiet {
        Err(CommandError::ConflictingVerbosity)
    } else {
        Ok(())
    }
}

} // verus!
