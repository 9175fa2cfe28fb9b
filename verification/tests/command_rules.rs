use ggit::cli::{check_global_flags, Cli, Commands};
use ggit::commands::{
    check_remove_request, check_selection, confirm_removal, plan_clear, pull_output_note,
    pull_mode, pull_step, scan_writes_registry, select_query, should_store, stop_after, ClearPlan, DoctorFinding, DoctorTally,
    PullAction, PullEvent, PullMode, PullOutcome, PullSummary, Selection,
};
use ggit::db::Repository;
use ggit::error::{CommandError, GgitError};
use ggit::git::PullResult;
use ggit::status::RepoStatus;

fn repo(name: &str) -> Repository {
    Repository {
        id: None,
        name: name.to_string(),
        path: format!("/w/{name}"),
        remote_url: None,
        current_branch: None,
    }
}

#[test]
fn global_flags() {
    let cli = |verbose, quiet| Cli {
        verbose,
        quiet,
        command: Commands::Doctor,
    };
    assert_eq!(
        check_global_flags(&cli(true, true)),
        Err(CommandError::ConflictingVerbosity)
    );
    assert_eq!(check_global_flags(&cli(true, false)), Ok(()));
    assert_eq!(
        CommandError::ConflictingVerbosity.message(),
        "--verbose and --quiet cannot be used together"
    );
}

#[test]
fn selection_queries() {
    assert_eq!(
        select_query(Some("api"), Some("/w/x")),
        Selection::ByPath("/w/x".to_string())
    );
    assert_eq!(select_query(Some("api"), None), Selection::ByName("api".to_string()));
    assert_eq!(select_query(None, None), Selection::All);
}

#[test]
fn empty_selections() {
    let e = check_selection(vec![], Some("api"), None).unwrap_err();
    assert_eq!(e.message(), "No tracked repositories matched filter `api`.");
    let e = check_selection(vec![], None, Some("./x")).unwrap_err();
    assert_eq!(e.message(), "No tracked repository matched path `./x`.");
    let e = check_selection(vec![], None, None).unwrap_err();
    assert_eq!(
        e.message(),
        "No repositories are tracked yet. Run `ggit scan .` from a directory that contains Git repositories."
    );
    let found = check_selection(vec![repo("a")], Some("a"), None).unwrap();
    assert_eq!(found.len(), 1);
}

#[test]
fn removal_rules() {
    let e = check_remove_request(None, None).unwrap_err();
    assert_eq!(
        e.message(),
        "Provide --filter <name> or --path <path> to remove repositories."
    );
    assert!(check_remove_request(Some("a"), None).is_ok());
    assert!(confirm_removal(1, false).is_ok());
    assert!(confirm_removal(3, true).is_ok());
    let e = confirm_removal(3, false).unwrap_err();
    assert_eq!(e.message(), "3 repositories matched. Rerun with --yes to remove them all.");
}

#[test]
fn clear_rules() {
    assert_eq!(plan_clear(0, false), Ok(ClearPlan::NothingTracked));
    assert_eq!(plan_clear(4, true), Ok(ClearPlan::RemoveAll(4)));
    let e = plan_clear(12, false).unwrap_err();
    assert_eq!(
        e.message(),
        "This would remove 12 repositories. Rerun with `ggit clear --yes` to confirm."
    );
}

#[test]
fn store_rule() {
    assert!(should_store(true, true));
    assert!(should_store(false, false));
    assert!(!should_store(false, true));
}

#[test]
fn pull_of_clean_repository() {
    assert_eq!(pull_step("a", "/w/a", PullEvent::Started), PullAction::CheckPath);
    assert_eq!(pull_step("a", "/w/a", PullEvent::PathChecked(true)), PullAction::CheckWorkTree);
    assert_eq!(pull_step("a", "/w/a", PullEvent::WorkTreeChecked(true)), PullAction::ReadStatus);
    let clean = RepoStatus::parse("## main...origin/main [behind 1]\n");
    assert_eq!(pull_step("a", "/w/a", PullEvent::StatusRead(Ok(clean))), PullAction::RunPull);
    let done = PullResult {
        updated: true,
        output: "Fast-forward".to_string(),
    };
    assert_eq!(
        pull_step("a", "/w/a", PullEvent::Pulled(Ok(done))),
        PullAction::Finish(PullOutcome::Updated)
    );
    let same = PullResult {
        updated: false,
        output: String::new(),
    };
    assert_eq!(
        pull_step("a", "/w/a", PullEvent::Pulled(Ok(same))),
        PullAction::Finish(PullOutcome::UpToDate)
    );
}

#[test]
fn pull_failures_and_skips() {
    assert_eq!(
        pull_step("a", "/w/a", PullEvent::PathChecked(false)),
        PullAction::Finish(PullOutcome::Failed("missing path".to_string()))
    );
    assert_eq!(
        pull_step("a", "/w/a", PullEvent::WorkTreeChecked(false)),
        PullAction::Finish(PullOutcome::Failed("not a git repository".to_string()))
    );
    assert_eq!(
        pull_step("a", "/w/a", PullEvent::StatusRead(Err("status broke".to_string()))),
        PullAction::Finish(PullOutcome::Failed("status broke".to_string()))
    );
    let dirty = RepoStatus::parse("## main...origin/main\n M src/lib.rs\n");
    assert_eq!(
        pull_step("api", "/w/api", PullEvent::StatusRead(Ok(dirty))),
        PullAction::Finish(PullOutcome::Skipped(
            "dirty working tree. Commit, stash, or discard changes, then rerun `ggit pull --filter api`."
                .to_string()
        ))
    );
    assert_eq!(
        pull_step("a", "/w/a", PullEvent::Pulled(Err("git pull --ff-only failed in /w/a: fatal".to_string()))),
        PullAction::AbortAndFinish(PullOutcome::Failed(
            "git pull --ff-only failed in /w/a: fatal Manual step: inspect `/w/a` and resolve the Git state before pulling again."
                .to_string()
        ))
    );
}

#[test]
fn pull_summary_and_stopping() {
    let outcomes = vec![
        PullOutcome::Updated,
        PullOutcome::UpToDate,
        PullOutcome::UpToDate,
        PullOutcome::Skipped("x".to_string()),
        PullOutcome::Failed("y".to_string()),
    ];
    let mut summary = PullSummary::new();
    for o in &outcomes {
        summary.record(o);
    }
    assert_eq!(
        summary,
        PullSummary {
            updated: 1,
            up_to_date: 2,
            skipped: 1,
            failed: 1
        }
    );
    assert_eq!(stop_after(&outcomes[0], false, "a"), None);
    assert_eq!(stop_after(&outcomes[4], true, "a"), None);
    let e = stop_after(&outcomes[4], false, "api").unwrap();
    assert_eq!(
        e.message(),
        "Stopping after failure in api. Rerun with --continue-on-error to continue past failures."
    );
}

#[test]
fn pull_notes() {
    assert_eq!(pull_output_note("  Already up to date.\n"), Some("Already up to date.".to_string()));
    assert_eq!(pull_output_note(" \n\t"), None);
}

#[test]
fn doctor_tally() {
    let mut tally = DoctorTally::new();
    assert_eq!(tally.record_missing(), DoctorFinding::MissingPath);
    let a = Some("https://a".to_string());
    let b = Some("https://b".to_string());
    assert_eq!(tally.record_remote(&a, &a), DoctorFinding::Healthy);
    assert_eq!(tally.record_remote(&a, &b), DoctorFinding::RemoteChanged);
    assert_eq!(tally.record_remote(&None, &a), DoctorFinding::RemoteChanged);
    assert_eq!(tally.record_remote(&None, &None), DoctorFinding::Healthy);
    assert_eq!(
        tally,
        DoctorTally {
            checked: 5,
            missing: 1,
            changed_remotes: 2
        }
    );
}

#[test]
fn missing_git_message() {
    assert_eq!(
        GgitError::MissingGit.message(),
        "could not run `git`. Make sure Git is installed and available on PATH"
    );
}

#[test]
fn dry_runs_change_nothing() {
    assert!(!scan_writes_registry(true));
    assert!(scan_writes_registry(false));
    assert_eq!(pull_mode(true), PullMode::ListOnly);
    assert_eq!(pull_mode(false), PullMode::PullEach);
}
