use ggit::db::Repository;
use ggit::scan::{normalize_path, pruned_dirs, should_prune, ScanAction, ScanOptions, ScanState};

fn options(include_hidden: bool) -> ScanOptions {
    ScanOptions {
        max_depth: None,
        include_hidden,
    }
}

fn repo(name: &str, path: &str) -> Repository {
    Repository {
        id: None,
        name: name.to_string(),
        path: path.to_string(),
        remote_url: None,
        current_branch: None,
    }
}

#[test]
fn pruned_directory_list() {
    let dirs = pruned_dirs();
    assert_eq!(dirs.len(), 27);
    assert_eq!(dirs[0], ".git");
    assert!(dirs.contains(&"node_modules"));
    assert!(dirs.contains(&".tox"));
}

#[test]
fn prune_rules() {
    assert!(should_prune("node_modules", &options(false)));
    assert!(should_prune("node_modules", &options(true)));
    assert!(should_prune(".git", &options(true)));
    assert!(should_prune(".hidden", &options(false)));
    assert!(!should_prune(".hidden", &options(true)));
    assert!(!should_prune("src", &options(false)));
    assert!(!should_prune("", &options(false)));
    assert!(!should_prune("node_modules2", &options(false)));
}

#[test]
fn visit_prunes_records_and_continues() {
    let mut state = ScanState::new();
    let opts = options(false);
    assert_eq!(state.visit(0, true, ".cache", false, &opts), ScanAction::Continue);
    assert_eq!(state.visit(1, true, "node_modules", true, &opts), ScanAction::Prune);
    assert_eq!(state.visit(1, true, ".cache", false, &opts), ScanAction::Prune);
    assert_eq!(state.visit(1, true, "outer", true, &opts), ScanAction::RecordRepository);
    assert_eq!(state.visit(2, false, "README.md", false, &opts), ScanAction::Continue);
    assert_eq!(state.visit(0, true, "root", true, &opts), ScanAction::RecordRepository);
    assert_eq!(state.pruned_directories, 2);
    assert!(state.repositories.is_empty());
}

#[test]
fn finish_orders_by_path_components() {
    let mut state = ScanState::new();
    state.record_repository(repo("zeta", "/work/zeta"));
    state.record_repository(repo("a-b", "/work/a-b"));
    state.record_repository(repo("b", "/work/a/b"));
    state.record_repository(repo("alpha", "/work/alpha"));
    let result = state.finish();
    let paths: Vec<&str> = result.repositories.iter().map(|r| r.path.as_str()).collect();
    assert_eq!(paths, vec!["/work/a/b", "/work/a-b", "/work/alpha", "/work/zeta"]);
    assert_eq!(result.pruned_directories, 0);
}

#[test]
fn normalize_path_keeps_path() {
    assert_eq!(normalize_path("/a/b".to_string()), "/a/b");
}

#[test]
fn found_repository_record() {
    let r = ggit::db::repository_from_path(
        "/home/me/src/tool".to_string(),
        Some("https://x/tool.git".to_string()),
        None,
    );
    assert_eq!(r.id, None);
    assert_eq!(r.name, "tool");
    assert_eq!(r.path, "/home/me/src/tool");
    assert_eq!(r.remote_url.as_deref(), Some("https://x/tool.git"));
    assert_eq!(ggit::db::repository_from_path("/".to_string(), None, None).name, "repository");
}

/// Drives a scan over a listing of (depth, is_dir, name, has_git, path)
/// entries the way a walk hands them out, honouring skipped subtrees.
fn walk(entries: &[(usize, bool, &str, bool, &str)], opts: &ScanOptions) -> ggit::scan::ScanResult {
    let mut state = ScanState::new();
    let mut skip_below: Option<usize> = None;
    for &(depth, is_dir, name, has_git, path) in entries {
        if let Some(d) = skip_below {
            if depth > d {
                continue;
            }
            skip_below = None;
        }
        match state.visit(depth, is_dir, name, has_git, opts) {
            ScanAction::Prune => skip_below = Some(depth),
            ScanAction::RecordRepository => {
                state.record_repository(repo(name, path));
                skip_below = Some(depth);
            }
            ScanAction::Continue => {}
        }
    }
    state.finish()
}

#[test]
fn walk_records_outer_repository_and_skips_inner() {
    let result = walk(
        &[
            (0, true, "tmp", false, "/tmp"),
            (1, true, "outer", true, "/tmp/outer"),
            (2, true, ".git", false, "/tmp/outer/.git"),
            (2, true, "inner", true, "/tmp/outer/inner"),
        ],
        &options(false),
    );
    assert_eq!(result.repositories.len(), 1);
    assert_eq!(result.repositories[0].name, "outer");
}

#[test]
fn walk_prunes_heavy_and_hidden_directories() {
    let result = walk(
        &[
            (0, true, "tmp", false, "/tmp"),
            (1, true, "node_modules", false, "/tmp/node_modules"),
            (2, true, "dep", true, "/tmp/node_modules/dep"),
            (1, true, ".cache", false, "/tmp/.cache"),
            (2, true, "dep", true, "/tmp/.cache/dep"),
        ],
        &options(false),
    );
    assert!(result.repositories.is_empty());
    assert_eq!(result.pruned_directories, 2);
}

#[test]
fn walk_records_repository_marked_by_git_file() {
    let result = walk(
        &[
            (0, true, "tmp", false, "/tmp"),
            (1, true, "worktree-style", true, "/tmp/worktree-style"),
            (2, false, ".git", false, "/tmp/worktree-style/.git"),
        ],
        &options(false),
    );
    assert_eq!(result.repositories.len(), 1);
    assert_eq!(result.repositories[0].name, "worktree-style");
}

#[test]
fn finish_keeps_tied_paths_in_found_order() {
    let mut state = ScanState::new();
    state.record_repository(repo("first", "/w/x"));
    state.record_repository(repo("second", "/w/x"));
    state.record_repository(repo("a", "/w/a"));
    state.record_repository(repo("third", "/w/x"));
    let names: Vec<String> = state.finish().repositories.into_iter().map(|r| r.name).collect();
    assert_eq!(names, vec!["a", "first", "second", "third"]);
}
