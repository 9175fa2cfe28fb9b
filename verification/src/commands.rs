//! The decisions of the `ggit` subcommands: which repositories a command
//! works on, when it needs confirmation, how a pull of one repository
//! proceeds, and the tallies the runs report.

use crate::db::Repository;
use crate::error::CommandError;
use crate::git::PullResult;
use crate::status::{has_dirty_line, is_parse_of, RepoStatus};
use crate::text::{owned, trim, trim_exec};
use vstd::prelude::*;
use vstd::string::StringExecFns;

verus! {

/// Which registry query a command runs.
#[derive(Debug, Clone, PartialEq, Eq)]
pub enum Selection {
    /// The repository stored under this path.
    ByPath(String),
    /// Repositories whose name matches this filter, ignoring case, as
    /// `crate::db::filter_by_name` reads it.
    ByName(String),
    /// Every tracked repository.
    All,
}

/// The query for `--path` and `--filter`: a path wins over a filter, and
/// with neither every repository is selected. `lookup_path` is the path as
/// it is looked up (resolved when it can be).
pub fn select_query(filter: Option<&str>, lookup_path: Option<&str>) -> (r: Selection)
    ensures
        lookup_path matches Some(p) ==> (r matches Selection::ByPath(q) && q@ == p@),
        lookup_path is None ==> (filter matches Some(f) ==> (r matches Selection::ByName(q) && q@
            == f@)),
        lookup_path is None && filter is None ==> r == Selection::All,
{
    match lookup_path {
        Some(p) => Selection::ByPath(owned(p)),
        None => match filter {
            Some(f) => Selection::ByName(owned(f)),
            None => Selection::All,
        },
    }
}

/// What a query that found nothing reports: the filter when one was given,
/// else the path when one was given, else that nothing is tracked.
pub open spec fn empty_selection_error(filter: Option<&str>, path: Option<&str>, e: CommandError) -> bool {
    match filter {
        Some(f) => e matches CommandError::NoFilterMatch(g) && g@ == f@,
        None => match path {
            Some(p) => e matches CommandError::NoPathMatch(q) && q@ == p@,
            None => e == CommandError::NothingTracked,
        },
    }
}

/// The repositories a query found, or, when it found none, the error that
/// says why (`path` as the user gave it).
pub fn check_selection(repos: Vec<Repository>, filter: Option<&str>, path: Option<&str>) -> (r:
    Result<Vec<Repository>, CommandError>)
    ensures
        repos@.len() > 0 ==> r == Ok::<Vec<Repository>, CommandError>(repos),
        repos@.len() == 0 ==> (r matches Err(e) && empty_selection_error(filter, path, e)),
{
    if repos.len() > 0 {
        Ok(repos)
    } else {
        match filter {
            Some(f) => Err(CommandError::NoFilterMatch(owned(f))),
            None => match path {
                Some(p) => Err(CommandError::NoPathMatch(owned(p))),
                None => Err(CommandError::NothingTracked),
            },
        }
    }
}

/// `remove` needs a filter or a path.
pub fn check_remove_request(filter: Option<&str>, path: Option<&str>) -> (r: Result<(), CommandError>)
    ensures
        r is Err <==> filter is None && path is None,
        r matches Err(e) ==> e == CommandError::MissingSelector,
{
    if filter.is_none() && path.is_none() {
        Err(CommandError::MissingSelector)
    } else {
        Ok(())
    }
}

/// Removing more than one repository needs `--yes`.
pub fn confirm_removal(count: usize, yes: bool) -> (r: Result<(), CommandError>)
    ensures
        r is Err <==> count > 1 && !yes,
        r matches Err(e) ==> e == CommandError::RemovalNeedsConfirmation(count),
{
    if count > 1 && !yes {
        Err(CommandError::RemovalNeedsConfirmation(count))
    } else {
        Ok(())
    }
}

/// What `clear` does with a registry of `count` repositories.
#[derive(Debug, Clone, Copy, PartialEq, Eq, Structural)]
pub enum ClearPlan {
    /// Nothing is tracked; there is nothing to clear.
    NothingTracked,
    /// Remove all this many repositories.
    RemoveAll(usize),
}

/// `clear` on an empty registry does nothing; otherwise it needs `--yes`
/// and then removes every repository.
pub fn plan_clear(count: usize, yes: bool) -> (r: Result<ClearPlan, CommandError>)
    ensures
        count == 0 ==> r == Ok::<ClearPlan, CommandError>(ClearPlan::NothingTracked),
        count > 0 && !yes ==> r == Err::<ClearPlan, CommandError>(
            CommandError::ClearNeedsConfirmation(count),
        ),
        count > 0 && yes ==> r == Ok::<ClearPlan, CommandError>(ClearPlan::RemoveAll(count)),
{
    if count == 0 {
        Ok(ClearPlan::NothingTracked)
    } else if !yes {
        Err(CommandError::ClearNeedsConfirmation(count))
    } else {
        Ok(ClearPlan::RemoveAll(count))
    }
}

/// A scan stores a found repository when forced to or when it is not yet known.
pub fn should_store(force: bool, already_known: bool) -> (b: bool)
    ensures
        b == (force || !already_known),
{
    force || !already_known
}

/// Whether `scan` writes what it found to the registry: a dry run only
/// reports it and leaves the registry unchanged.
pub fn scan_writes_registry(dry_run: bool) -> (b: bool)
    ensures
        b == !dry_run,
{
    !dry_run
}

/// What `pull` does with the repositories it selected.
#[derive(Debug, Clone, Copy, PartialEq, Eq)]
pub enum PullMode {
    /// List the repositories that would be pulled, and pull none.
    ListOnly,
    /// Pull each repository in turn.
    PullEach,
}

/// `pull --dry-run` only lists the repositories it would pull; otherwise
/// each of them is pulled.
pub fn pull_mode(dry_run: bool) -> (m: PullMode)
    ensures
        dry_run <==> m is ListOnly,
        !dry_run <==> m is PullEach,
{
    if dry_run {
        PullMode::ListOnly
    } else {
        PullMode::PullEach
    }
}

/// How the pull of one repository ended.
#[derive(Debug, Clone, PartialEq, Eq)]
pub enum PullOutcome {
    Updated,
    UpToDate,
    Skipped(String),
    Failed(String),
}

/// What the pull of one repository learned last.
#[derive(Debug)]
pub enum PullEvent {
    /// Nothing yet.
    Started,
    /// Whether the repository's path exists.
    PathChecked(bool),
    /// Whether the path is inside a Git work tree.
    WorkTreeChecked(bool),
    /// The repository's status, or why it could not be read.
    StatusRead(Result<RepoStatus, String>),
    /// The result of `git pull --ff-only`, or why it failed.
    Pulled(Result<PullResult, String>),
}

/// What the pull of one repository does next.
#[derive(Debug, Clone, PartialEq, Eq)]
pub enum PullAction {
    /// Check that the repository's path exists.
    CheckPath,
    /// Check that the path is inside a Git work tree.
    CheckWorkTree,
    /// Read the repository's status.
    ReadStatus,
    /// Run `git pull --ff-only`.
    RunPull,
    /// Abort a merge or rebase the failed pull left behind, then end so.
    AbortAndFinish(PullOutcome),
    /// End with this outcome.
    Finish(PullOutcome),
}

/// The reason a dirty repository named `name` is skipped.
pub open spec fn dirty_skip_text(name: Seq<char>) -> Seq<char> {
    "dirty working tree. Commit, stash, or discard changes, then rerun `ggit pull --filter "@ + name
        + "`."@
}

/// The reason a failed pull in `path` gives, with the next step to take.
pub open spec fn pull_failed_text(error: String, path: Seq<char>) -> Seq<char> {
    error@ + " Manual step: inspect `"@ + path
        + "` and resolve the Git state before pulling again."@
}

/// `a` is the next action of the pull of the repository `name` at `path`
/// after `event`.
pub open spec fn is_next_pull_action(name: Seq<char>, path: Seq<char>, event: PullEvent, a: PullAction) -> bool {
    match event {
        PullEvent::Started => a == PullAction::CheckPath,
        PullEvent::PathChecked(true) => a == PullAction::CheckWorkTree,
        PullEvent::PathChecked(false) => (a matches PullAction::Finish(PullOutcome::Failed(m)) && m@
            == "missing path"@),
        PullEvent::WorkTreeChecked(true) => a == PullAction::ReadStatus,
        PullEvent::WorkTreeChecked(false) => (a matches PullAction::Finish(PullOutcome::Failed(m))
            && m@ == "not a git repository"@),
        PullEvent::StatusRead(Err(e)) => (a matches PullAction::Finish(PullOutcome::Failed(m)) && m@
            == e@),
        PullEvent::StatusRead(Ok(s)) => if s.worktree_dirty {
            (a matches PullAction::Finish(PullOutcome::Skipped(m)) && m@ == dirty_skip_text(name))
        } else {
            a == PullAction::RunPull
        },
        PullEvent::Pulled(Ok(p)) => if p.updated {
            a == PullAction::Finish(PullOutcome::Updated)
        } else {
            a == PullAction::Finish(PullOutcome::UpToDate)
        },
        PullEvent::Pulled(Err(e)) => (a matches PullAction::AbortAndFinish(PullOutcome::Failed(m))
            && m@ == pull_failed_text(e, path)),
    }
}

/// A successful pull ends the pull of a repository, as updated exactly when
/// the pull result says it changed something and as up to date exactly when
/// it says it did not, whatever text the pull printed.
pub proof fn lemma_successful_pull_outcome(
    name: Seq<char>,
    path: Seq<char>,
    p: PullResult,
    a: PullAction,
)
    requires
        is_next_pull_action(name, path, PullEvent::Pulled(Ok(p)), a),
    ensures
        a == PullAction::Finish(PullOutcome::Updated) <==> p.updated,
        a == PullAction::Finish(PullOutcome::UpToDate) <==> !p.updated,
        a is Finish,
{
}

/// The next action of the pull of the repository `name` at `path` after
/// `event`: check the path, then the work tree, then read the status; a
/// dirty work tree is skipped and never pulled; a failed pull aborts any
/// merge or rebase left behind and fails with a message naming the path.
pub fn pull_step(name: &str, path: &str, event: PullEvent) -> (a: PullAction)
    ensures
        is_next_pull_action(name@, path@, event, a),
        event matches PullEvent::Pulled(Ok(p)) ==> (a == PullAction::Finish(PullOutcome::Updated)
            <==> p.updated),
        event matches PullEvent::Pulled(Ok(p)) ==> (a == PullAction::Finish(PullOutcome::UpToDate)
            <==> !p.updated),
{
    match event {
        PullEvent::Started => PullAction::CheckPath,
        PullEvent::PathChecked(exists) => if exists {
            PullAction::CheckWorkTree
        } else {
            PullAction::Finish(PullOutcome::Failed(owned("missing path")))
        },
        PullEvent::WorkTreeChecked(inside) => if inside {
            PullAction::ReadStatus
        } else {
            PullAction::Finish(PullOutcome::Failed(owned("not a git repository")))
        },
        PullEvent::StatusRead(Err(e)) => PullAction::Finish(PullOutcome::Failed(e)),
        PullEvent::StatusRead(Ok(s)) => if s.worktree_dirty {
            let mut m = owned(
                "dirty working tree. Commit, stash, or discard changes, then rerun `ggit pull --filter ",
            );
            m.append(name);
            m.append("`.");
            PullAction::Finish(PullOutcome::Skipped(m))
        } else {
            PullAction::RunPull
        },
        PullEvent::Pulled(Ok(p)) => if p.updated {
            PullAction::Finish(PullOutcome::Updated)
        } else {
            PullAction::Finish(PullOutcome::UpToDate)
        },
        PullEvent::Pulled(Err(e)) => {
            let mut m = e;
            m.append(" Manual step: inspect `");
            m.append(path);
            m.append("` and resolve the Git state before pulling again.");
            PullAction::AbortAndFinish(PullOutcome::Failed(m))
        },
    }
}

/// Dirty repositories are skipped: when the status output of a repository
/// lists a change, the pull of it ends skipped, with the reason naming the
/// repository, and `git pull` is never run on it; when it lists none, the
/// pull goes ahead.
pub proof fn lemma_dirty_repository_is_skipped(
    name: Seq<char>,
    path: Seq<char>,
    output: Seq<char>,
    status: RepoStatus,
    a: PullAction,
)
    requires
        is_parse_of(status, output),
        is_next_pull_action(name, path, PullEvent::StatusRead(Ok(status)), a),
    ensures
        has_dirty_line(output) ==> (a matches PullAction::Finish(PullOutcome::Skipped(m)) && m@
            == dirty_skip_text(name)),
        has_dirty_line(output) ==> a != PullAction::RunPull,
        !has_dirty_line(output) ==> a == PullAction::RunPull,
{
}

/// A pull is only run on a repository whose status was read and is clean,
/// and a merge or rebase is only aborted after a pull failed.
pub proof fn lemma_pull_runs_only_on_clean_status(
    name: Seq<char>,
    path: Seq<char>,
    event: PullEvent,
    a: PullAction,
)
    requires
        is_next_pull_action(name, path, event, a),
    ensures
        a == PullAction::RunPull ==> (event matches PullEvent::StatusRead(Ok(s))
            && !s.worktree_dirty),
        a is AbortAndFinish ==> (event matches PullEvent::Pulled(Err(_))),
{
}

/// The trimmed output of a pull, when there is any, for verbose runs.
pub fn pull_output_note(output: &str) -> (r: Option<String>)
    ensures
        trim(output@).len() > 0 ==> (r matches Some(n) && n@ == trim(output@)),
        trim(output@).len() == 0 ==> r is None,
{
    let t = trim_exec(output);
    if t.as_str().is_empty() {
        None
    } else {
        Some(t)
    }
}

/// How many pulls ended in each way.
#[derive(Debug, Clone, Copy, Default, PartialEq, Eq, Structural)]
pub struct PullSummary {
    pub updated: usize,
    pub up_to_date: usize,
    pub skipped: usize,
    pub failed: usize,
}

impl PullSummary {
    /// The number of pulls counted.
    pub open spec fn total(self) -> int {
        self.updated + self.up_to_date + self.skipped + self.failed
    }

    /// The summary after counting one more outcome.
    pub open spec fn counted(self, o: PullOutcome) -> PullSummary {
        match o {
            PullOutcome::Updated => PullSummary { updated: (self.updated + 1) as usize, ..self },
            PullOutcome::UpToDate => PullSummary { up_to_date: (self.up_to_date + 1) as usize, ..self },
            PullOutcome::Skipped(_) => PullSummary { skipped: (self.skipped + 1) as usize, ..self },
            PullOutcome::Failed(_) => PullSummary { failed: (self.failed + 1) as usize, ..self },
        }
    }

    /// A summary of no pulls.
    pub fn new() -> (r: Self)
        ensures
            r.total() == 0,
            r.updated == 0 && r.up_to_date == 0 && r.skipped == 0 && r.failed == 0,
    {
        PullSummary { updated: 0, up_to_date: 0, skipped: 0, failed: 0 }
    }

    /// Counts one outcome under its kind; the other counts stay.
    pub fn record(&mut self, outcome: &PullOutcome)
        requires
            old(self).total() < usize::MAX,
        ensures
            *final(self) == old(self).counted(*outcome),
            final(self).total() == old(self).total() + 1,
            final(self).updated == old(self).updated + if *outcome is Updated {
                1int
            } else {
                0int
            },
            final(self).up_to_date == old(self).up_to_date + if *outcome is UpToDate {
                1int
            } else {
                0int
            },
            final(self).skipped == old(self).skipped + if *outcome is Skipped {
                1int
            } else {
                0int
            },
            final(self).failed == old(self).failed + if *outcome is Failed {
                1int
            } else {
                0int
            },
    {
        match outcome {
            PullOutcome::Updated => self.updated = self.updated + 1,
            PullOutcome::UpToDate => self.up_to_date = self.up_to_date + 1,
            PullOutcome::Skipped(_) => self.skipped = self.skipped + 1,
            PullOutcome::Failed(_) => self.failed = self.failed + 1,
        }
    }
}

/// The summary of a run whose pulls ended with `outcomes`, in order.
pub open spec fn summary_of(outcomes: Seq<PullOutcome>) -> PullSummary
    decreases outcomes.len(),
{
    if outcomes.len() == 0 {
        PullSummary { updated: 0, up_to_date: 0, skipped: 0, failed: 0 }
    } else {
        summary_of(outcomes.drop_last()).counted(outcomes.last())
    }
}

/// How many of `outcomes` are of the kind `kind` picks out.
pub open spec fn count_where(outcomes: Seq<PullOutcome>, kind: spec_fn(PullOutcome) -> bool) -> nat
    decreases outcomes.len(),
{
    if outcomes.len() == 0 {
        0
    } else {
        count_where(outcomes.drop_last(), kind) + if kind(outcomes.last()) {
            1nat
        } else {
            0nat
        }
    }
}

/// The pull summary accounts for every pull once: its counts add up to the
/// number of pulls, and each count is the number of pulls that ended that way.
pub proof fn lemma_summary_counts_every_pull(outcomes: Seq<PullOutcome>)
    requires
        outcomes.len() <= usize::MAX,
    ensures
        summary_of(outcomes).total() == outcomes.len(),
        summary_of(outcomes).updated == count_where(outcomes, |o: PullOutcome| o is Updated),
        summary_of(outcomes).up_to_date == count_where(outcomes, |o: PullOutcome| o is UpToDate),
        summary_of(outcomes).skipped == count_where(outcomes, |o: PullOutcome| o is Skipped),
        summary_of(outcomes).failed == count_where(outcomes, |o: PullOutcome| o is Failed),
    decreases outcomes.len(),
{
    if outcomes.len() > 0 {
        lemma_summary_counts_every_pull(outcomes.drop_last());
    }
}

/// A pull run stops at a failure unless it was told to continue past them;
/// the error then names the repository.
pub fn stop_after(outcome: &PullOutcome, continue_on_error: bool, name: &str) -> (r: Option<CommandError>)
    ensures
        r is Some <==> (*outcome is Failed && !continue_on_error),
        r matches Some(e) ==> (e matches CommandError::PullStopped(n) && n@ == name@),
{
    match outcome {
        PullOutcome::Failed(_) => if continue_on_error {
            None
        } else {
            Some(CommandError::PullStopped(owned(name)))
        },
        _ => None,
    }
}

/// What `doctor` found for one tracked repository.
#[derive(Debug, Clone, Copy, PartialEq, Eq, Structural)]
pub enum DoctorFinding {
    MissingPath,
    RemoteChanged,
    Healthy,
}

/// The counts `doctor` reports.
#[derive(Debug, Clone, Copy, PartialEq, Eq, Structural)]
pub struct DoctorTally {
    pub checked: usize,
    pub missing: usize,
    pub changed_remotes: usize,
}

/// The text of an optional remote.
pub open spec fn remote_text(r: Option<String>) -> Option<Seq<char>> {
    match r {
        Some(s) => Some(s@),
        None => None,
    }
}

impl DoctorTally {
    /// Every count is within the number of repositories checked.
    pub open spec fn well_formed(self) -> bool {
        self.missing + self.changed_remotes <= self.checked
    }

    /// A tally of no repositories.
    pub fn new() -> (r: Self)
        ensures
            r.well_formed(),
            r.checked == 0 && r.missing == 0 && r.changed_remotes == 0,
    {
        DoctorTally { checked: 0, missing: 0, changed_remotes: 0 }
    }

    /// Counts a repository whose path no longer exists.
    pub fn record_missing(&mut self) -> (f: DoctorFinding)
        requires
            old(self).well_formed(),
            old(self).checked < usize::MAX,
        ensures
            final(self).well_formed(),
            f == DoctorFinding::MissingPath,
            final(self).checked == old(self).checked + 1,
            final(self).missing == old(self).missing + 1,
            final(self).changed_remotes == old(self).changed_remotes,
    {
        self.checked = self.checked + 1;
        self.missing = self.missing + 1;
        DoctorFinding::MissingPath
    }

    /// Counts a repository that exists, comparing the remote the registry
    /// stored with the one Git reports now.
    pub fn record_remote(&mut self, stored: &Option<String>, current: &Option<String>) -> (f:
        DoctorFinding)
        requires
            old(self).well_formed(),
            old(self).checked < usize::MAX,
        ensures
            final(self).well_formed(),
            f == (if remote_text(*stored) == remote_text(*current) {
                DoctorFinding::Healthy
            } else {
                DoctorFinding::RemoteChanged
            }),
            final(self).checked == old(self).checked + 1,
            final(self).missing == old(self).missing,
            final(self).changed_remotes == old(self).changed_remotes + if f
                == DoctorFinding::RemoteChanged {
                1int
            } else {
                0int
            },
    {
        let same = match (stored, current) {
            (Some(a), Some(b)) => *a == *b,
            (None, None) => true,
            _ => false,
        };
        self.checked = self.checked + 1;
        if same {
            DoctorFinding::Healthy
        } else {
            self.changed_remotes = self.changed_remotes + 1;
            DoctorFinding::RemoteChanged
        }
    }
}

} // verus!
