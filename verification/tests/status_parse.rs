use ggit::status::{RepoStatus, SyncStatus};

#[test]
fn parses_clean() {
    let status = RepoStatus::parse("## main...origin/main\n");
    assert_eq!(status.branch, "main");
    assert_eq!(status.sync, SyncStatus::Clean);
    assert!(!status.worktree_dirty);
}

#[test]
fn parses_ahead() {
    let status = RepoStatus::parse("## main...origin/main [ahead 2]\n");
    assert_eq!(status.sync, SyncStatus::NeedsPush(2));
}

#[test]
fn parses_behind() {
    let status = RepoStatus::parse("## main...origin/main [behind 3]\n");
    assert_eq!(status.sync, SyncStatus::NeedsPull(3));
}

#[test]
fn parses_diverged_and_dirty() {
    let status = RepoStatus::parse("## main...origin/main [ahead 1, behind 2]\n M src/main.rs\n");
    assert_eq!(
        status.sync,
        SyncStatus::Diverged {
            ahead: 1,
            behind: 2
        }
    );
    assert!(status.worktree_dirty);
}

#[test]
fn parses_no_upstream() {
    let status = RepoStatus::parse("## feature\n");
    assert_eq!(status.sync, SyncStatus::NoUpstream);
}
