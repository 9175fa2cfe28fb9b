use ggit::db::Repository;
use ggit::output::{
    repo_table, repo_table_layout, status_table, status_table_layout, stored_repo_table,
    stored_repo_table_layout, table,
};
use ggit::status::StatusRow;

fn cells(row: &comfy_table::Row) -> Vec<String> {
    row.cell_iter().map(|c| c.content()).collect()
}

fn repos() -> Vec<Repository> {
    vec![
        Repository {
            id: Some(1),
            name: "alpha".to_string(),
            path: "/w/alpha".to_string(),
            remote_url: None,
            current_branch: Some("main".to_string()),
        },
        Repository {
            id: Some(2),
            name: "beta".to_string(),
            path: "/w/beta".to_string(),
            remote_url: Some("https://example.com/beta.git".to_string()),
            current_branch: None,
        },
    ]
}

#[test]
fn empty_table() {
    let t = table();
    assert!(t.header().is_none());
    assert_eq!(t.row_count(), 0);
}

#[test]
fn found_repository_table() {
    let t = repo_table_layout(&repos());
    assert_eq!(cells(t.header().unwrap()), vec!["name", "remote", "path"]);
    assert_eq!(t.row_count(), 2);
    assert_eq!(cells(t.row(0).unwrap()), vec!["alpha", "no remote configured", "/w/alpha"]);
    assert_eq!(
        cells(t.row(1).unwrap()),
        vec!["beta", "https://example.com/beta.git", "/w/beta"]
    );
    let text = repo_table(&repos());
    assert!(text.contains("alpha"));
    assert!(text.contains("no remote configured"));
}

#[test]
fn stored_repository_table() {
    let t = stored_repo_table_layout(&repos());
    assert_eq!(cells(t.header().unwrap()), vec!["name", "branch", "remote", "path"]);
    assert_eq!(cells(t.row(0).unwrap()), vec!["alpha", "main", "-", "/w/alpha"]);
    assert_eq!(
        cells(t.row(1).unwrap()),
        vec!["beta", "-", "https://example.com/beta.git", "/w/beta"]
    );
    assert!(stored_repo_table(&repos()).contains("beta"));
}

#[test]
fn status_tables() {
    let row = StatusRow {
        name: "alpha".to_string(),
        path: "/w/alpha".to_string(),
        remote: "-".to_string(),
        branch: "main".to_string(),
        sync: "clean".to_string(),
        worktree: "dirty".to_string(),
    };
    let short = status_table_layout(&[row.clone()], true);
    assert_eq!(cells(short.header().unwrap()), vec!["name", "branch", "sync", "worktree"]);
    assert_eq!(cells(short.row(0).unwrap()), vec!["alpha", "main", "clean", "dirty"]);
    let full = status_table_layout(&[row.clone()], false);
    assert_eq!(
        cells(full.header().unwrap()),
        vec!["name", "branch", "sync", "worktree", "remote", "path"]
    );
    assert_eq!(
        cells(full.row(0).unwrap()),
        vec!["alpha", "main", "clean", "dirty", "-", "/w/alpha"]
    );
    assert!(status_table(&[row], false).contains("clean"));
}

#[test]
fn drawn_tables_match_comfy_table_drawing() {
    let mut expected = comfy_table::Table::new();
    expected
        .load_preset(comfy_table::presets::UTF8_FULL)
        .set_content_arrangement(comfy_table::ContentArrangement::Dynamic);
    expected.set_header(vec!["name", "remote", "path"]);
    expected.add_row(vec!["alpha", "no remote configured", "/w/alpha"]);
    expected.add_row(vec!["beta", "https://example.com/beta.git", "/w/beta"]);
    let text = repo_table(&repos());
    assert_eq!(text, expected.to_string());
    assert!(text.starts_with('┌'));
}
