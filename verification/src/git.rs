//! What the output of the `git` commands that `ggit` runs means: command
//! failures, remotes, branches, status snapshots and fast-forward pulls.

use crate::paths::{is_absolute_path, join_path, path_absolute, path_joined};
use crate::status::{is_parse_of, RepoStatus, SyncStatus};
use crate::text::{chars_of, contains, find_exec, lowercase, owned, to_lowercase, trim, trim_exec};
use vstd::prelude::*;
use vstd::string::StringExecFns;

verus! {

/// The outcome of `git pull --ff-only` that succeeded.
#[derive(Debug)]
pub struct PullResult {
    pub updated: bool,
    pub output: String,
}

/// The error text of a failed command: the command, the directory it ran in,
/// and its trimmed error output.
pub open spec fn failure_text(command: Seq<char>, path: Seq<char>, detail: Seq<char>) -> Seq<char> {
    command + " failed in "@ + path + ": "@ + trim(detail)
}

fn failure_message(command: &str, path: &str, detail: &str) -> (r: String)
    ensures
        r@ == failure_text(command@, path@, detail@),
{
    let mut r = owned(command);
    r.append(" failed in ");
    r.append(path);
    r.append(": ");
    let t = trim_exec(detail);
    r.append(t.as_str());
    r
}

/// The standard output of a command that succeeded; otherwise the failure
/// text built from `command`, `path` and the error output.
pub fn command_text(success: bool, stdout: &str, stderr: &str, command: &str, path: &str) -> (r:
    Result<String, String>)
    ensures
        success ==> (r matches Ok(t) && t@ == stdout@),
        !success ==> (r matches Err(e) && e@ == failure_text(command@, path@, stderr@)),
{
    if success {
        Ok(owned(stdout))
    } else {
        Err(failure_message(command, path, stderr))
    }
}

/// The remote URL reported by `git remote get-url origin`: its trimmed
/// output when it succeeded, none otherwise.
pub fn remote_url_from_output(success: bool, stdout: &str) -> (r: Option<String>)
    ensures
        success ==> (r matches Some(u) && u@ == trim(stdout@)),
        !success ==> r is None,
{
    if success {
        Some(trim_exec(stdout))
    } else {
        None
    }
}

/// The branch reported by `git branch --show-current`: its trimmed output
/// when it succeeded and is not empty (a detached head prints nothing).
pub fn branch_from_output(success: bool, stdout: &str) -> (r: Option<String>)
    ensures
        success && trim(stdout@).len() > 0 ==> (r matches Some(b) && b@ == trim(stdout@)),
        !success || trim(stdout@).len() == 0 ==> r is None,
{
    if success {
        let b = trim_exec(stdout);
        if b.as_str().is_empty() {
            None
        } else {
            Some(b)
        }
    } else {
        None
    }
}

/// The status of a repository: missing when its path does not exist, not a
/// repository when the path is outside a Git work tree, otherwise what the
/// `git status --porcelain=v1 --branch` output says, or that command's error.
pub fn status_snapshot(
    path_exists: bool,
    inside_work_tree: bool,
    status_output: Option<Result<String, String>>,
) -> (r: Result<RepoStatus, String>)
    requires
        path_exists && inside_work_tree ==> status_output is Some,
    ensures
        !path_exists ==> (r matches Ok(s) && s.sync == SyncStatus::MissingPath && s.branch@ == "-"@
            && s.ahead is None && s.behind is None && !s.worktree_dirty),
        path_exists && !inside_work_tree ==> (r matches Ok(s) && s.sync == SyncStatus::NotGitRepo
            && s.branch@ == "-"@ && s.ahead is None && s.behind is None && !s.worktree_dirty),
        path_exists && inside_work_tree ==> match status_output {
            Some(Ok(text)) => (r matches Ok(s) && is_parse_of(s, text@)),
            Some(Err(e)) => r == Err::<RepoStatus, String>(e),
            None => false,
        },
{
    if !path_exists {
        return Ok(RepoStatus::missing());
    }
    if !inside_work_tree {
        return Ok(RepoStatus::not_git());
    }
    match status_output {
        Some(Ok(text)) => Ok(RepoStatus::parse(text.as_str())),
        Some(Err(e)) => Err(e),
        None => Err(String::new()),
    }
}

/// The Git directory named by `git rev-parse --git-dir` run in `repo_path`:
/// its trimmed output when that is absolute, else that output under `repo_path`.
pub fn git_dir_from_output(repo_path: &str, stdout: &str) -> (r: String)
    ensures
        r@ == (if path_absolute(trim(stdout@)) {
            trim(stdout@)
        } else {
            path_joined(repo_path@, trim(stdout@))
        }),
{
    let dir = trim_exec(stdout);
    if is_absolute_path(dir.as_str()) {
        dir
    } else {
        join_path(repo_path, dir.as_str())
    }
}

/// Whether lower-cased pull output says the branch was already up to date.
pub open spec fn says_up_to_date(lowered: Seq<char>) -> bool {
    contains(lowered, "already up to date"@) || contains(lowered, "already up-to-date"@)
}

/// Whether lower-cased pull output says the branch was already up to date.
pub fn reports_up_to_date(lowered: &str) -> (b: bool)
    ensures
        b == says_up_to_date(lowered@),
{
    let v = chars_of(lowered);
    let a = chars_of("already up to date");
    let b = chars_of("already up-to-date");
    find_exec(&v, &a).is_some() || find_exec(&v, &b).is_some()
}

/// The error text of a failed pull in `path` with the combined output.
pub open spec fn pull_failure_text(path: Seq<char>, combined: Seq<char>) -> Seq<char> {
    "git pull --ff-only failed in "@ + path + ": "@ + trim(combined)
}

/// The outcome of `git pull --ff-only` in `path` from its exit status and
/// output. Its output is standard output followed by error output; a failed
/// pull is an error naming the path; a successful one updated the branch
/// unless its output, lower-cased, says it was already up to date.
pub fn pull_result(success: bool, stdout: &str, stderr: &str, path: &str) -> (r: Result<
    PullResult,
    String,
>)
    ensures
        success ==> (r matches Ok(p) && p.output@ == stdout@ + stderr@ && p.updated
            == !says_up_to_date(lowercase(stdout@ + stderr@))),
        !success ==> (r matches Err(e) && e@ == pull_failure_text(path@, stdout@ + stderr@)),
{
    let mut combined = owned(stdout);
    combined.append(stderr);
    if !success {
        let mut e = owned("git pull --ff-only failed in ");
        e.append(path);
        e.append(": ");
        let t = trim_exec(combined.as_str());
        e.append(t.as_str());
        return Err(e);
    }
    let lowered = to_lowercase(combined.as_str());
    let up_to_date = reports_up_to_date(lowered.as_str());
    Ok(PullResult { updated: !up_to_date, output: combined })
}

} // verus!
