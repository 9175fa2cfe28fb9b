//! The tables the command line prints, laid out with `comfy_table`.

use crate::db::Repository;
use crate::status::StatusRow;
use crate::text::owned;
use comfy_table::Table;
use vstd::prelude::*;

verus! {

/// `comfy_table::Table`, a table of text cells; its drawing is left to the crate.
#[verifier::external_type_specification]
#[verifier::external_body]
pub struct ExTable(comfy_table::Table);

/// The texts of a table's header cells, when it has a header.
pub uninterp spec fn table_header(t: Table) -> Option<Seq<Seq<char>>>;

/// The texts of a table's body cells, row by row.
pub uninterp spec fn table_rows(t: Table) -> Seq<Seq<Seq<char>>>;

/// The texts of a list of cells.
pub open spec fn texts(cells: Seq<String>) -> Seq<Seq<char>> {
    cells.map_values(|c: String| c@)
}

/// The table's border style as a preset string, one character per border
/// component (`Table::current_style_as_preset`).
pub uninterp spec fn table_style(t: Table) -> Seq<char>;

/// Whether the table's content arrangement is `ContentArrangement::Dynamic`.
pub uninterp spec fn table_dynamic(t: Table) -> bool;

/// Whether every setting of the table other than its header, rows, border
/// style and content arrangement is still as `Table::new` left it: no width,
/// delimiter, truncation indicator, column setting, tty or styling setting
/// was changed, and no cell carries a style of its own.
pub uninterp spec fn table_settings_default(t: Table) -> bool;

/// The text `Table::to_string` draws for a table with this border style,
/// arrangement (dynamic or not), header and rows, the other settings as
/// `Table::new` leaves them, when the table's width is `width`.
pub uninterp spec fn table_text(
    style: Seq<char>,
    dynamic: bool,
    header: Option<Seq<Seq<char>>>,
    rows: Seq<Seq<Seq<char>>>,
    width: Option<u16>,
) -> Seq<char>;

/// The `ASCII_FULL` preset of `comfy_table`, which `Table::new` loads.
pub open spec fn ascii_full_style() -> Seq<char> {
    "||--+==+|-+||++++++"@
}

/// The `UTF8_FULL` preset of `comfy_table`.
pub open spec fn utf8_full_style() -> Seq<char> {
    "││──╞═╪╡┆╌┼├┤┬┴┌┐└┘"@
}

/// Calls `comfy_table::Table::new`. Claimed: the new table has no header
/// and no rows, the `ASCII_FULL` border style, no dynamic arrangement, and
/// default settings otherwise.
#[verifier::external_body]
fn table_new() -> (t: Table)
    ensures
        table_header(t) is None,
        table_rows(t) == Seq::<Seq<Seq<char>>>::empty(),
        table_style(t) == ascii_full_style(),
        !table_dynamic(t),
        table_settings_default(t),
{
    Table::new()
}

/// Calls `Table::load_preset` with the `UTF8_FULL` border style. Claimed:
/// the border style becomes `UTF8_FULL` (its nineteen characters set every
/// border component); nothing else changes.
#[verifier::external_body]
fn table_load_utf8_full(t: &mut Table)
    ensures
        table_header(*final(t)) == table_header(*old(t)),
        table_rows(*final(t)) == table_rows(*old(t)),
        table_style(*final(t)) == utf8_full_style(),
        table_dynamic(*final(t)) == table_dynamic(*old(t)),
        table_settings_default(*final(t)) == table_settings_default(*old(t)),
{
    t.load_preset(comfy_table::presets::UTF8_FULL);
}

/// Calls `Table::set_content_arrangement` with `ContentArrangement::Dynamic`.
/// Claimed: the arrangement becomes dynamic; nothing else changes.
#[verifier::external_body]
fn table_set_dynamic(t: &mut Table)
    ensures
        table_header(*final(t)) == table_header(*old(t)),
        table_rows(*final(t)) == table_rows(*old(t)),
        table_style(*final(t)) == table_style(*old(t)),
        table_dynamic(*final(t)),
        table_settings_default(*final(t)) == table_settings_default(*old(t)),
{
    t.set_content_arrangement(comfy_table::ContentArrangement::Dynamic);
}

/// Calls `Table::set_header` with the given cells. Claimed: the header holds
/// exactly these texts; the rows, style, arrangement and other settings are
/// unchanged (new columns are only generated with their defaults).
#[verifier::external_body]
fn table_set_header(t: &mut Table, cells: Vec<String>)
    ensures
        table_header(*final(t)) == Some(texts(cells@)),
        table_rows(*final(t)) == table_rows(*old(t)),
        table_style(*final(t)) == table_style(*old(t)),
        table_dynamic(*final(t)) == table_dynamic(*old(t)),
        table_settings_default(*final(t)) == table_settings_default(*old(t)),
{
    t.set_header(cells);
}

/// Calls `Table::add_row` with the given cells. Claimed: the row is appended
/// after the existing rows; the header, style, arrangement and other
/// settings are unchanged (new columns are only generated with their defaults).
#[verifier::external_body]
fn table_add_row(t: &mut Table, cells: Vec<String>)
    ensures
        table_header(*final(t)) == table_header(*old(t)),
        table_rows(*final(t)) == table_rows(*old(t)).push(texts(cells@)),
        table_style(*final(t)) == table_style(*old(t)),
        table_dynamic(*final(t)) == table_dynamic(*old(t)),
        table_settings_default(*final(t)) == table_settings_default(*old(t)),
{
    t.add_row(cells);
}

/// Calls `Table::to_string`, which draws the table. Claimed: the text is
/// `table_text` of the table's style, arrangement, header and rows at some
/// width. Which width is not claimed: it is the width of the terminal when
/// standard output is one whose size can be read, and none otherwise, so it
/// depends on where the program runs.
#[verifier::external_body]
fn table_render(t: &Table) -> (r: String)
    requires
        table_settings_default(*t),
    ensures
        exists|w: Option<u16>|
            r@ == #[trigger] table_text(
                table_style(*t),
                table_dynamic(*t),
                table_header(*t),
                table_rows(*t),
                w,
            ),
{
    t.to_string()
}

/// `text` is a drawing of a table with full UTF-8 borders, dynamic
/// arrangement, this header and these rows, at some width.
pub open spec fn drawn_table(text: Seq<char>, header: Seq<Seq<char>>, rows: Seq<Seq<Seq<char>>>) -> bool {
    exists|w: Option<u16>|
        text == #[trigger] table_text(utf8_full_style(), true, Some(header), rows, w)
}

/// An empty table with full UTF-8 borders whose columns fit the terminal.
pub fn table() -> (t: Table)
    ensures
        table_header(t) is None,
        table_rows(t) == Seq::<Seq<Seq<char>>>::empty(),
        table_style(t) == utf8_full_style(),
        table_dynamic(t),
        table_settings_default(t),
{
    let mut t = table_new();
    table_load_utf8_full(&mut t);
    table_set_dynamic(&mut t);
    t
}

/// A vector of strings from literals.
fn labels(names: &[&str]) -> (r: Vec<String>)
    ensures
        texts(r@) == names@.map_values(|s: &str| s@),
{
    let mut r: Vec<String> = Vec::new();
    let mut i: usize = 0;
    while i < names.len()
        invariant
            i <= names.len(),
            texts(r@) == names@.subrange(0, i as int).map_values(|s: &str| s@),
        decreases names.len() - i,
    {
        let ghost before = r@;
        r.push(owned(names[i]));
        assert(texts(r@) =~= texts(before).push(names@[i as int]@));
        assert(names@.subrange(0, i + 1) =~= names@.subrange(0, i as int).push(names@[i as int]));
        assert(texts(r@) =~= names@.subrange(0, i + 1).map_values(|s: &str| s@));
        i = i + 1;
    }
    assert(names@.subrange(0, names@.len() as int) =~= names@);
    r
}

/// The text of an optional value, or `fallback` when it is absent.
pub open spec fn or_text(o: Option<String>, fallback: Seq<char>) -> Seq<char> {
    match o {
        Some(s) => s@,
        None => fallback,
    }
}

fn or_owned(o: &Option<String>, fallback: &str) -> (r: String)
    ensures
        r@ == or_text(*o, fallback@),
{
    match o {
        Some(s) => s.clone(),
        None => owned(fallback),
    }
}

/// Header of the table of found repositories.
pub open spec fn repo_header() -> Seq<Seq<char>> {
    seq!["name"@, "remote"@, "path"@]
}

/// Cells of a found repository: name, remote (or "no remote configured"), path.
pub open spec fn repo_cells(r: Repository) -> Seq<Seq<char>> {
    seq![r.name@, or_text(r.remote_url, "no remote configured"@), r.path@]
}

/// Header of the table of stored repositories.
pub open spec fn stored_header() -> Seq<Seq<char>> {
    seq!["name"@, "branch"@, "remote"@, "path"@]
}

/// Cells of a stored repository: name, branch (or "-"), remote (or "-"), path.
pub open spec fn stored_cells(r: Repository) -> Seq<Seq<char>> {
    seq![r.name@, or_text(r.current_branch, "-"@), or_text(r.remote_url, "-"@), r.path@]
}

/// Header of the status table, short or full.
pub open spec fn status_header(short: bool) -> Seq<Seq<char>> {
    if short {
        seq!["name"@, "branch"@, "sync"@, "worktree"@]
    } else {
        seq!["name"@, "branch"@, "sync"@, "worktree"@, "remote"@, "path"@]
    }
}

/// Cells of a status row, short or full.
pub open spec fn status_cells(r: StatusRow, short: bool) -> Seq<Seq<char>> {
    if short {
        seq![r.name@, r.branch@, r.sync@, r.worktree@]
    } else {
        seq![r.name@, r.branch@, r.sync@, r.worktree@, r.remote@, r.path@]
    }
}

/// The table of found repositories, laid out but not yet drawn.
pub fn repo_table_layout(repos: &[Repository]) -> (t: Table)
    ensures
        table_header(t) == Some(repo_header()),
        table_style(t) == utf8_full_style(),
        table_dynamic(t),
        table_settings_default(t),
        table_rows(t) == repos@.map_values(|r: Repository| repo_cells(r)),
{
    let mut t = table();
    table_set_header(&mut t, labels(&["name", "remote", "path"]));
    assert(seq!["name", "remote", "path"].map_values(|s: &str| s@) =~= repo_header());
    let mut i: usize = 0;
    while i < repos.len()
        invariant
            i <= repos.len(),
            table_header(t) == Some(repo_header()),
            table_style(t) == utf8_full_style(),
            table_dynamic(t),
            table_settings_default(t),
            table_rows(t) == repos@.subrange(0, i as int).map_values(|r: Repository| repo_cells(r)),
        decreases repos.len() - i,
    {
        let repo = &repos[i];
        let mut cells: Vec<String> = Vec::new();
        cells.push(repo.name.clone());
        cells.push(or_owned(&repo.remote_url, "no remote configured"));
        cells.push(repo.path.clone());
        assert(texts(cells@) =~= repo_cells(*repo));
        table_add_row(&mut t, cells);
        assert(repos@.subrange(0, i + 1).map_values(|r: Repository| repo_cells(r)) =~= repos@.subrange(
            0,
            i as int,
        ).map_values(|r: Repository| repo_cells(r)).push(repo_cells(*repo)));
        i = i + 1;
    }
    assert(repos@.subrange(0, repos@.len() as int) =~= repos@);
    t
}

/// The table of found repositories, drawn: the header and the cells of
/// `repo_table_layout` with full UTF-8 borders, fitted to the terminal's
/// width when there is one.
pub fn repo_table(repos: &[Repository]) -> (r: String)
    ensures
        drawn_table(r@, repo_header(), repos@.map_values(|r: Repository| repo_cells(r))),
{
    let t = repo_table_layout(repos);
    table_render(&t)
}

/// The table of stored repositories, laid out but not yet drawn.
pub fn stored_repo_table_layout(repos: &[Repository]) -> (t: Table)
    ensures
        table_header(t) == Some(stored_header()),
        table_style(t) == utf8_full_style(),
        table_dynamic(t),
        table_settings_default(t),
        table_rows(t) == repos@.map_values(|r: Repository| stored_cells(r)),
{
    let mut t = table();
    table_set_header(&mut t, labels(&["name", "branch", "remote", "path"]));
    assert(seq!["name", "branch", "remote", "path"].map_values(|s: &str| s@) =~= stored_header());
    let mut i: usize = 0;
    while i < repos.len()
        invariant
            i <= repos.len(),
            table_header(t) == Some(stored_header()),
            table_style(t) == utf8_full_style(),
            table_dynamic(t),
            table_settings_default(t),
            table_rows(t) == repos@.subrange(0, i as int).map_values(
                |r: Repository| stored_cells(r),
            ),
        decreases repos.len() - i,
    {
        let repo = &repos[i];
        let mut cells: Vec<String> = Vec::new();
        cells.push(repo.name.clone());
        cells.push(or_owned(&repo.current_branch, "-"));
        cells.push(or_owned(&repo.remote_url, "-"));
        cells.push(repo.path.clone());
        assert(texts(cells@) =~= stored_cells(*repo));
        table_add_row(&mut t, cells);
        assert(repos@.subrange(0, i + 1).map_values(|r: Repository| stored_cells(r))
            =~= repos@.subrange(0, i as int).map_values(|r: Repository| stored_cells(r)).push(
            stored_cells(*repo),
        ));
        i = i + 1;
    }
    assert(repos@.subrange(0, repos@.len() as int) =~= repos@);
    t
}

/// The table of stored repositories, drawn: the header and the cells of
/// `stored_repo_table_layout` with full UTF-8 borders, fitted to the
/// terminal's width when there is one.
pub fn stored_repo_table(repos: &[Repository]) -> (r: String)
    ensures
        drawn_table(r@, stored_header(), repos@.map_values(|r: Repository| stored_cells(r))),
{
    let t = stored_repo_table_layout(repos);
    table_render(&t)
}

/// The status table, short or full, laid out but not yet drawn.
pub fn status_table_layout(rows: &[StatusRow], short: bool) -> (t: Table)
    ensures
        table_header(t) == Some(status_header(short)),
        table_style(t) == utf8_full_style(),
        table_dynamic(t),
        table_settings_default(t),
        table_rows(t) == rows@.map_values(|r: StatusRow| status_cells(r, short)),
{
    let mut t = table();
    if short {
        table_set_header(&mut t, labels(&["name", "branch", "sync", "worktree"]));
        assert(seq!["name", "branch", "sync", "worktree"].map_values(|s: &str| s@)
            =~= status_header(short));
    } else {
        table_set_header(
            &mut t,
            labels(&["name", "branch", "sync", "worktree", "remote", "path"]),
        );
        assert(seq!["name", "branch", "sync", "worktree", "remote", "path"].map_values(
            |s: &str| s@,
        ) =~= status_header(short));
    }
    let mut i: usize = 0;
    while i < rows.len()
        invariant
            i <= rows.len(),
            table_header(t) == Some(status_header(short)),
            table_style(t) == utf8_full_style(),
            table_dynamic(t),
            table_settings_default(t),
            table_rows(t) == rows@.subrange(0, i as int).map_values(
                |r: StatusRow| status_cells(r, short),
            ),
        decreases rows.len() - i,
    {
        let row = &rows[i];
        let mut cells: Vec<String> = Vec::new();
        cells.push(row.name.clone());
        cells.push(row.branch.clone());
        cells.push(row.sync.clone());
        cells.push(row.worktree.clone());
        if !short {
            cells.push(row.remote.clone());
            cells.push(row.path.clone());
        }
        assert(texts(cells@) =~= status_cells(*row, short));
        table_add_row(&mut t, cells);
        assert(rows@.subrange(0, i + 1).map_values(|r: StatusRow| status_cells(r, short))
            =~= rows@.subrange(0, i as int).map_values(|r: StatusRow| status_cells(r, short)).push(
            status_cells(*row, short),
        ));
        i = i + 1;
    }
    assert(rows@.subrange(0, rows@.len() as int) =~= rows@);
    t
}

/// The status table, short or full, drawn: the header and the cells of
/// `status_table_layout` with full UTF-8 borders, fitted to the terminal's
/// width when there is one.
pub fn status_table(rows: &[StatusRow], short: bool) -> (r: String)
    ensures
        drawn_table(r@, status_header(short), rows@.map_values(|r: StatusRow| status_cells(r, short))),
{
    let t = status_table_layout(rows, short);
    table_render(&t)
}

} // verus!
