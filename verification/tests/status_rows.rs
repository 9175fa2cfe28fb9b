use ggit::db::Repository;
use ggit::status::{status_row, sync_label, RepoStatus, SyncStatus};

fn repo(path: &str, remote: Option<&str>, branch: Option<&str>) -> Repository {
    Repository {
        id: None,
        name: "example".to_string(),
        path: path.to_string(),
        remote_url: remote.map(str::to_string),
        current_branch: branch.map(str::to_string),
    }
}

#[test]
fn empty_output_is_clean_without_branch() {
    let status = RepoStatus::parse("");
    assert_eq!(status.branch, "-");
    assert_eq!(status.ahead, None);
    assert_eq!(status.behind, None);
    assert_eq!(status.sync, SyncStatus::Clean);
    assert!(!status.worktree_dirty);
}

#[test]
fn crlf_lines_and_blank_lines() {
    let status = RepoStatus::parse("## dev...origin/dev\r\n\r\n   \n");
    assert_eq!(status.branch, "dev");
    assert_eq!(status.sync, SyncStatus::Clean);
    assert!(!status.worktree_dirty);
    let dirty = RepoStatus::parse("## dev...origin/dev\r\n?? new.txt\r\n");
    assert!(dirty.worktree_dirty);
}

#[test]
fn header_without_newline_and_detached_head() {
    let status = RepoStatus::parse("## HEAD (no branch)");
    assert_eq!(status.branch, "HEAD");
    assert_eq!(status.sync, SyncStatus::NoUpstream);
}

#[test]
fn no_upstream_wins_over_single_count_but_not_both() {
    let status = RepoStatus::parse("## feature [ahead 4]\n");
    assert_eq!(status.ahead, Some(4));
    assert_eq!(status.sync, SyncStatus::NoUpstream);
    let both = RepoStatus::parse("## feature [ahead 4, behind 5]\n");
    assert_eq!(both.sync, SyncStatus::Diverged { ahead: 4, behind: 5 });
}

#[test]
fn count_too_large_is_ignored() {
    let status =
        RepoStatus::parse("## main...origin/main [ahead 999999999999999999999999999999]\n");
    assert_eq!(status.ahead, None);
    assert_eq!(status.sync, SyncStatus::Clean);
}

#[test]
fn counts_with_leading_zeros_and_text_before_digits() {
    let status = RepoStatus::parse("## main...origin/main [behind 007]\n");
    assert_eq!(status.behind, Some(7));
    assert_eq!(status.sync, SyncStatus::NeedsPull(7));
}

#[test]
fn missing_and_not_git_statuses() {
    let m = RepoStatus::missing();
    assert_eq!(m.branch, "-");
    assert_eq!(m.sync, SyncStatus::MissingPath);
    assert!(!m.worktree_dirty);
    let n = RepoStatus::not_git();
    assert_eq!(n.branch, "-");
    assert_eq!(n.sync, SyncStatus::NotGitRepo);
    assert_eq!(n.ahead, None);
}

#[test]
fn sync_labels() {
    assert_eq!(sync_label(&SyncStatus::Clean), "clean");
    assert_eq!(sync_label(&SyncStatus::NeedsPush(2)), "ahead 2");
    assert_eq!(sync_label(&SyncStatus::NeedsPull(30)), "behind 30");
    assert_eq!(
        sync_label(&SyncStatus::Diverged { ahead: 1, behind: 120 }),
        "diverged +1/-120"
    );
    assert_eq!(sync_label(&SyncStatus::NoUpstream), "no upstream");
    assert_eq!(sync_label(&SyncStatus::MissingPath), "missing path");
    assert_eq!(sync_label(&SyncStatus::NotGitRepo), "not a git repo");
    assert_eq!(sync_label(&SyncStatus::Unknown), "unknown");
    assert_eq!(sync_label(&SyncStatus::NeedsPush(0)), "ahead 0");
}

#[test]
fn status_row_full_and_short() {
    let r = repo("/home/user/code/example", Some("git@host:example.git"), Some("main"));
    let status = RepoStatus::parse("## main...origin/main [ahead 2]\n M file\n");
    let full = status_row(&r, Some(status.clone()), false);
    assert_eq!(full.name, "example");
    assert_eq!(full.path, "/home/user/code/example");
    assert_eq!(full.remote, "git@host:example.git");
    assert_eq!(full.branch, "main");
    assert_eq!(full.sync, "ahead 2");
    assert_eq!(full.worktree, "dirty");
    let short = status_row(&r, Some(status), true);
    assert_eq!(short.path, "example");
}

#[test]
fn status_row_without_snapshot() {
    let r = repo("/srv/repos/tool", None, Some("develop"));
    let row = status_row(&r, None, false);
    assert_eq!(row.branch, "develop");
    assert_eq!(row.sync, "unknown");
    assert_eq!(row.worktree, "clean");
    assert_eq!(row.remote, "-");
    let r2 = repo("/srv/repos/tool", None, None);
    assert_eq!(status_row(&r2, None, true).branch, "-");
}

#[test]
fn status_row_short_path_without_file_name() {
    let r = repo("/", None, None);
    let row = status_row(&r, Some(RepoStatus::missing()), true);
    assert_eq!(row.path, "/");
    assert_eq!(row.sync, "missing path");
}

#[test]
fn counts_written_by_sync_label_are_read_back() {
    for n in [0usize, 7, 42, 1000, 123456789] {
        let ahead = sync_label(&SyncStatus::NeedsPush(n));
        let behind = sync_label(&SyncStatus::NeedsPull(n));
        let header = format!("## main...origin/main [{}, {}]\n", ahead, behind);
        let status = RepoStatus::parse(&header);
        assert_eq!(status.ahead, Some(n));
        assert_eq!(status.behind, Some(n));
        assert_eq!(status.sync, SyncStatus::Diverged { ahead: n, behind: n });
    }
}

#[test]
fn counts_only_come_from_the_tracking_bracket() {
    let status = RepoStatus::parse("## fix-behind-2...origin/fix-behind-2\n");
    assert_eq!(status.branch, "fix-behind-2");
    assert_eq!(status.ahead, None);
    assert_eq!(status.behind, None);
    assert_eq!(status.sync, SyncStatus::Clean);
    let feature = RepoStatus::parse("## ahead-3\n");
    assert_eq!(feature.ahead, None);
    assert_eq!(feature.sync, SyncStatus::NoUpstream);
    let upstream_set = RepoStatus::parse("## ahead-3...origin/ahead-3 [behind 4]\n");
    assert_eq!(upstream_set.ahead, None);
    assert_eq!(upstream_set.sync, SyncStatus::NeedsPull(4));
}

#[test]
fn distinct_statuses_get_distinct_labels() {
    let all = [
        SyncStatus::Clean,
        SyncStatus::NeedsPush(1),
        SyncStatus::NeedsPush(11),
        SyncStatus::NeedsPull(1),
        SyncStatus::Diverged { ahead: 1, behind: 11 },
        SyncStatus::Diverged { ahead: 11, behind: 1 },
        SyncStatus::NoUpstream,
        SyncStatus::MissingPath,
        SyncStatus::NotGitRepo,
        SyncStatus::Unknown,
    ];
    for (i, a) in all.iter().enumerate() {
        for (j, b) in all.iter().enumerate() {
            assert_eq!(i == j, sync_label(a) == sync_label(b));
        }
    }
}
