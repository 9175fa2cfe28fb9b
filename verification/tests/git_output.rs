use ggit::git::{
    branch_from_output, command_text, git_dir_from_output, pull_result, remote_url_from_output,
    reports_up_to_date, status_snapshot,
};
use ggit::status::SyncStatus;

#[test]
fn command_text_success_and_failure() {
    assert_eq!(
        command_text(true, "git version 2.40.0\n", "", "git --version", ".").unwrap(),
        "git version 2.40.0\n"
    );
    assert_eq!(
        command_text(false, "", "  fatal: bad\n", "git status", "/repo").unwrap_err(),
        "git status failed in /repo: fatal: bad"
    );
}

#[test]
fn remote_and_branch_outputs() {
    assert_eq!(
        remote_url_from_output(true, "git@example.com:a/b.git\n"),
        Some("git@example.com:a/b.git".to_string())
    );
    assert_eq!(remote_url_from_output(false, "whatever"), None);
    assert_eq!(branch_from_output(true, " main \n"), Some("main".to_string()));
    assert_eq!(branch_from_output(true, "\n"), None);
    assert_eq!(branch_from_output(false, "main"), None);
}

#[test]
fn snapshots_by_probe() {
    let missing = status_snapshot(false, false, None).unwrap();
    assert_eq!(missing.sync, SyncStatus::MissingPath);
    let not_git = status_snapshot(true, false, None).unwrap();
    assert_eq!(not_git.sync, SyncStatus::NotGitRepo);
    let parsed = status_snapshot(true, true, Some(Ok("## main...origin/main [behind 1]\n".to_string())))
        .unwrap();
    assert_eq!(parsed.sync, SyncStatus::NeedsPull(1));
    let failed = status_snapshot(true, true, Some(Err("boom".to_string())));
    assert_eq!(failed.unwrap_err(), "boom");
}

#[test]
fn pull_results() {
    let up = pull_result(true, "Already up to date.\n", "", "/r").unwrap();
    assert!(!up.updated);
    assert_eq!(up.output, "Already up to date.\n");
    let old_style = pull_result(true, "ALREADY UP-TO-DATE\n", "", "/r").unwrap();
    assert!(!old_style.updated);
    let updated = pull_result(true, "Updating 1..2\nFast-forward\n", "From x\n", "/r").unwrap();
    assert!(updated.updated);
    assert_eq!(updated.output, "Updating 1..2\nFast-forward\nFrom x\n");
    let failed = pull_result(false, "", "fatal: Not possible to fast-forward\n", "/r");
    assert_eq!(
        failed.unwrap_err(),
        "git pull --ff-only failed in /r: fatal: Not possible to fast-forward"
    );
}

#[test]
fn up_to_date_detection_needs_lowercase_text() {
    assert!(reports_up_to_date("already up to date."));
    assert!(!reports_up_to_date("Already up to date."));
}

#[test]
fn git_dir_paths() {
    assert_eq!(git_dir_from_output("/repo", ".git\n"), "/repo/.git");
    assert_eq!(git_dir_from_output("/repo", "/elsewhere/.git\n"), "/elsewhere/.git");
}

fn named(name: &str) -> ggit::db::Repository {
    ggit::db::Repository {
        id: None,
        name: name.to_string(),
        path: format!("/w/{name}"),
        remote_url: None,
        current_branch: None,
    }
}

#[test]
fn name_filter_ignores_case_and_keeps_order() {
    let repos = vec![named("example"), named("other"), named("Example-Two"), named("École")];
    let found = ggit::db::filter_by_name(repos.clone(), "EXAM");
    let names: Vec<&str> = found.iter().map(|r| r.name.as_str()).collect();
    assert_eq!(names, vec!["example", "Example-Two"]);
    let accented = ggit::db::filter_by_name(repos.clone(), "école");
    assert_eq!(accented.len(), 1);
    assert_eq!(accented[0].name, "École");
    assert_eq!(ggit::db::filter_by_name(repos, "").len(), 4);
}

#[test]
fn name_filter_reads_like_wildcards() {
    let repos = vec![named("example"), named("other"), named("Example-Two"), named("ex_tra")];
    assert_eq!(ggit::db::filter_by_name(repos.clone(), "%").len(), 4);
    let one_char: Vec<String> = ggit::db::filter_by_name(repos.clone(), "ex_mple")
        .into_iter()
        .map(|r| r.name)
        .collect();
    assert_eq!(one_char, vec!["example", "Example-Two"]);
    let any_run: Vec<String> = ggit::db::filter_by_name(repos.clone(), "e%two")
        .into_iter()
        .map(|r| r.name)
        .collect();
    assert_eq!(any_run, vec!["Example-Two"]);
    assert_eq!(ggit::db::filter_by_name(repos.clone(), "ex__t").len(), 0);
    assert_eq!(ggit::db::filter_by_name(repos.clone(), "x_t").len(), 1);
    assert!(ggit::db::filter_by_name(repos, "zz%").is_empty());
}

#[test]
fn like_patterns_match_whole_text() {
    let t = |s: &str| s.chars().collect::<Vec<char>>();
    assert!(ggit::text::like_exec(&t("abc"), &t("abc")));
    assert!(!ggit::text::like_exec(&t("abc"), &t("ab")));
    assert!(ggit::text::like_exec(&t("abc"), &t("a_c")));
    assert!(!ggit::text::like_exec(&t("ac"), &t("a_c")));
    assert!(ggit::text::like_exec(&t("ac"), &t("a%c")));
    assert!(ggit::text::like_exec(&t("axyzc"), &t("a%c")));
    assert!(ggit::text::like_exec(&t(""), &t("%")));
    assert!(!ggit::text::like_exec(&t(""), &t("_")));
    assert!(ggit::text::like_exec(&t(""), &t("")));
    assert!(!ggit::text::like_exec(&t("a"), &t("")));
    assert!(ggit::text::like_exec(&t("a%b"), &t("a%%b")));
}
