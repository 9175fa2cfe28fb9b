//! What `git status --porcelain=v1 --branch` says about a repository, and the
//! row of the status table built from it.

use crate::db::Repository;
use crate::paths::{file_name_of, path_file_name};
use crate::text::{
    lacks, lemma_contains_inside, lemma_find_from, lemma_lacks_concat, lemma_lacks_first_char,
    chars_of, contains, decimal, digits_to_usize, digits_value, find, find_exec,
    index_of_char_exec, index_of_char_from, is_whitespace, is_ws, lemma_decimal_reads_back,
    lemma_index_of_char, lemma_index_of_char_absent, lemma_skip_digit_to,
    matches_at, matches_at_exec, owned, push_decimal, skip_digit,
    skip_digit_exec, skip_non_digit, skip_non_digit_exec, skip_non_ws, skip_non_ws_exec, skip_ws,
    skip_ws_exec, string_from_range, sub_vec,
};
use vstd::prelude::*;
use vstd::string::StringExecFns;

verus! {

/// Where a branch stands against its upstream, or why that is not known.
#[derive(Debug, Clone, Copy, PartialEq, Eq, Structural)]
pub enum SyncStatus {
    Clean,
    NeedsPush(usize),
    NeedsPull(usize),
    Diverged { ahead: usize, behind: usize },
    NoUpstream,
    MissingPath,
    NotGitRepo,
    Unknown,
}

/// The local state of one repository.
#[derive(Debug, Clone, PartialEq, Eq)]
pub struct RepoStatus {
    pub branch: String,
    pub ahead: Option<usize>,
    pub behind: Option<usize>,
    pub sync: SyncStatus,
    pub worktree_dirty: bool,
}

/// One line of the status table, every cell as text.
#[derive(Debug, Clone)]
pub struct StatusRow {
    pub name: String,
    pub path: String,
    pub remote: String,
    pub branch: String,
    pub sync: String,
    pub worktree: String,
}

/// Index of the first line break of `s` (`s.len()` when there is none).
pub open spec fn first_break(s: Seq<char>) -> int {
    index_of_char_from(s, '\n', 0)
}

/// The first line of `s` as `str::lines` yields it: the text before the first
/// `\n`, without a `\r` that stood right before that `\n`; all of `s` when it
/// holds no `\n`; empty for empty `s`.
pub open spec fn first_line(s: Seq<char>) -> Seq<char> {
    let p = first_break(s);
    if 0 < p < s.len() && s[p - 1] == '\r' {
        s.subrange(0, p - 1)
    } else {
        s.subrange(0, p)
    }
}

/// Some line after the first one holds a character other than whitespace.
pub open spec fn has_dirty_line(s: Seq<char>) -> bool {
    exists|k: int| first_break(s) < k < s.len() && !is_ws(#[trigger] s[k])
}

/// The branch name in a status header: after dropping a leading `"## "` and
/// everything from the first `"..."` on, the first whitespace-separated word,
/// or `"-"` when there is none.
pub open spec fn branch_of(header: Seq<char>) -> Seq<char> {
    let h = if matches_at(header, "## "@, 0) {
        header.subrange("## "@.len() as int, header.len() as int)
    } else {
        header
    };
    let b = match find(h, "..."@) {
        Some(i) => h.subrange(0, i),
        None => h,
    };
    let a = skip_ws(b, 0);
    if a < b.len() {
        b.subrange(a, skip_non_ws(b, a))
    } else {
        "-"@
    }
}

/// The tracking part of a status header: what follows its first `[`, as in
/// `"## main...origin/main [ahead 1, behind 2]"`; empty when there is no
/// `[`. Git refuses `[` in branch names, so a branch name never reaches it.
pub open spec fn tracking_part(header: Seq<char>) -> Seq<char> {
    let i = index_of_char_from(header, '[', 0);
    if i < header.len() {
        header.subrange(i + 1, header.len() as int)
    } else {
        Seq::empty()
    }
}

/// The count that a status header's tracking part gives for `marker`.
pub open spec fn marker_count(header: Seq<char>, marker: Seq<char>) -> Option<usize> {
    count_after(tracking_part(header), marker)
}

/// The count that follows the first occurrence of `marker` in `text`: the
/// first run of ASCII digits after it, when there is one and its value fits
/// in a `usize`.
pub open spec fn count_after(text: Seq<char>, marker: Seq<char>) -> Option<usize> {
    match find(text, marker) {
        None => None,
        Some(p) => {
            let d0 = skip_non_digit(text, p + marker.len());
            let d1 = skip_digit(text, d0);
            let n = digits_value(text.subrange(d0, d1));
            if d0 < d1 && n <= usize::MAX {
                Some(n as usize)
            } else {
                None
            }
        },
    }
}

/// A header names no upstream: it starts with `"## "` and holds no `"..."`.
pub open spec fn lacks_upstream(header: Seq<char>) -> bool {
    matches_at(header, "## "@, 0) && !contains(header, "..."@)
}

/// The sync state read from the ahead and behind counts of a header.
pub open spec fn sync_of(ahead: Option<usize>, behind: Option<usize>, no_upstream: bool) -> SyncStatus {
    match (ahead, behind) {
        (Some(a), Some(b)) => SyncStatus::Diverged { ahead: a, behind: b },
        _ => if no_upstream {
            SyncStatus::NoUpstream
        } else {
            match (ahead, behind) {
                (Some(a), None) => SyncStatus::NeedsPush(a),
                (None, Some(b)) => SyncStatus::NeedsPull(b),
                _ => SyncStatus::Clean,
            }
        },
    }
}

/// `r` is what the status output `s` says.
pub open spec fn is_parse_of(r: RepoStatus, s: Seq<char>) -> bool {
    let header = first_line(s);
    &&& r.branch@ == branch_of(header)
    &&& r.ahead == marker_count(header, "ahead"@)
    &&& r.behind == marker_count(header, "behind"@)
    &&& r.sync == sync_of(r.ahead, r.behind, lacks_upstream(header))
    &&& r.worktree_dirty == has_dirty_line(s)
}

/// Counts as the sync column writes them are what the status parser reads:
/// a header whose tracking part holds a marker word, a space and the
/// decimal rendering of `n` yields `n` for that marker.
pub proof fn lemma_count_reads_back(prefix: Seq<char>, marker: Seq<char>, n: usize)
    requires
        !prefix.contains('['),
    ensures
        marker_count(prefix + "["@ + marker + " "@ + decimal(n as nat) + "]"@, marker) == Some(n),
{
    reveal_strlit(" ");
    reveal_strlit("[");
    reveal_strlit("]");
    let d = decimal(n as nat);
    let t = marker + " "@ + d + "]"@;
    let h = prefix + "["@ + marker + " "@ + d + "]"@;
    let p = prefix.len() as int;
    assert(h[p] == '[');
    assert forall|k: int| 0 <= k < p implies h[k] != '[' by {
        assert(h[k] == prefix[k]);
        if h[k] == '[' {
            assert(prefix.contains('['));
        }
    }
    lemma_index_of_char(h, '[', 0, p);
    assert(tracking_part(h) =~= t);
    lemma_decimal_reads_back(n as nat);
    assert(t.subrange(0, marker.len() as int) =~= marker);
    assert(matches_at(t, marker, 0));
    assert(find(t, marker) == Some(0int));
    let m = marker.len() as int;
    assert(t[m] == ' ');
    assert(!crate::text::is_digit(t[m]));
    assert(t[m + 1] == d[0]);
    assert(skip_non_digit(t, m + 1) == m + 1);
    assert(skip_non_digit(t, m) == m + 1);
    let e = m + 1 + d.len();
    assert forall|k: int| m + 1 <= k < e implies crate::text::is_digit(#[trigger] t[k]) by {
        assert(t[k] == d[k - m - 1]);
    }
    assert(t[e] == ']');
    lemma_skip_digit_to(t, m + 1, e);
    assert(t.subrange(m + 1, e) =~= d);
}

/// Counts come only from the tracking part: a header without `[` (a branch
/// level with its upstream, whatever its name) gives no counts.
pub proof fn lemma_counts_only_in_tracking_part(header: Seq<char>, marker: Seq<char>)
    requires
        !header.contains('['),
    ensures
        marker_count(header, marker) is None,
{
    assert forall|k: int| 0 <= k < header.len() implies header[k] != '[' by {
        if header[k] == '[' {
            assert(header.contains('['));
        }
    }
    lemma_index_of_char_absent(header, '[', 0);
    assert(tracking_part(header) =~= Seq::<char>::empty());
}

/// The text of the sync column.
pub open spec fn sync_text(sync: SyncStatus) -> Seq<char> {
    match sync {
        SyncStatus::Clean => "clean"@,
        SyncStatus::NeedsPush(n) => "ahead "@ + decimal(n as nat),
        SyncStatus::NeedsPull(n) => "behind "@ + decimal(n as nat),
        SyncStatus::Diverged { ahead, behind } => "diverged +"@ + decimal(ahead as nat) + "/-"@
            + decimal(behind as nat),
        SyncStatus::NoUpstream => "no upstream"@,
        SyncStatus::MissingPath => "missing path"@,
        SyncStatus::NotGitRepo => "not a git repo"@,
        SyncStatus::Unknown => "unknown"@,
    }
}

impl RepoStatus {
    /// Reads the output of `git status --porcelain=v1 --branch`: the branch,
    /// the ahead/behind counts and the sync state from its first line, and
    /// whether any later line holds anything but whitespace.
    pub fn parse(input: &str) -> (r: Self)
        ensures
            is_parse_of(r, input@),
    {
        let v = chars_of(input);
        let p = index_of_char_exec(&v, '\n', 0);
        let header = if 0 < p && p < v.len() && v[p - 1] == '\r' {
            sub_vec(&v, 0, p - 1)
        } else {
            sub_vec(&v, 0, p)
        };
        let branch = parse_branch(&header);
        let ahead_marker = chars_of("ahead");
        let behind_marker = chars_of("behind");
        let ahead = parse_marker(&header, &ahead_marker);
        let behind = parse_marker(&header, &behind_marker);
        let prefix = chars_of("## ");
        let dots = chars_of("...");
        let no_upstream = matches_at_exec(&header, &prefix, 0) && find_exec(&header, &dots).is_none();
        let worktree_dirty = any_dirty_line(&v, p);
        let sync = match (ahead, behind) {
            (Some(a), Some(b)) => SyncStatus::Diverged { ahead: a, behind: b },
            _ => if no_upstream {
                SyncStatus::NoUpstream
            } else {
                match (ahead, behind) {
                    (Some(a), None) => SyncStatus::NeedsPush(a),
                    (None, Some(b)) => SyncStatus::NeedsPull(b),
                    _ => SyncStatus::Clean,
                }
            },
        };
        RepoStatus { branch, ahead, behind, sync, worktree_dirty }
    }

    /// The status of a repository whose path no longer exists.
    pub fn missing() -> (r: Self)
        ensures
            r.branch@ == "-"@,
            r.ahead is None,
            r.behind is None,
            r.sync == SyncStatus::MissingPath,
            !r.worktree_dirty,
    {
        RepoStatus {
            branch: owned("-"),
            ahead: None,
            behind: None,
            sync: SyncStatus::MissingPath,
            worktree_dirty: false,
        }
    }

    /// The status of a path that is not inside a Git work tree.
    pub fn not_git() -> (r: Self)
        ensures
            r.branch@ == "-"@,
            r.ahead is None,
            r.behind is None,
            r.sync == SyncStatus::NotGitRepo,
            !r.worktree_dirty,
    {
        RepoStatus {
            branch: owned("-"),
            ahead: None,
            behind: None,
            sync: SyncStatus::NotGitRepo,
            worktree_dirty: false,
        }
    }
}

/// Whether a line after the first break at `p` holds anything but whitespace.
fn any_dirty_line(v: &Vec<char>, p: usize) -> (b: bool)
    requires
        p == first_break(v@),
        p <= v.len(),
    ensures
        b == has_dirty_line(v@),
{
    if p >= v.len() {
        return false;
    }
    let mut k = p + 1;
    while k < v.len()
        invariant
            p < k <= v.len(),
            p == first_break(v@),
            forall|m: int| p < m < k ==> is_ws(#[trigger] v@[m]),
        decreases v.len() - k,
    {
        if !is_whitespace(v[k]) {
            return true;
        }
        k = k + 1;
    }
    false
}

/// The branch name of a status header.
pub fn parse_branch(header: &Vec<char>) -> (r: String)
    ensures
        r@ == branch_of(header@),
{
    let prefix = chars_of("## ");
    let h = if matches_at_exec(header, &prefix, 0) {
        sub_vec(header, prefix.len(), header.len())
    } else {
        sub_vec(header, 0, header.len())
    };
    assert(header@.subrange(0, header@.len() as int) =~= header@);
    let dots = chars_of("...");
    let b = match find_exec(&h, &dots) {
        Some(i) => sub_vec(&h, 0, i),
        None => sub_vec(&h, 0, h.len()),
    };
    assert(h@.subrange(0, h@.len() as int) =~= h@);
    let a = skip_ws_exec(&b, 0);
    if a < b.len() {
        let e = skip_non_ws_exec(&b, a);
        string_from_range(&b, a, e)
    } else {
        owned("-")
    }
}

/// From `i` on, a text without whitespace is one word that runs to its end.
proof fn lemma_word_runs_to_end(b: Seq<char>, i: int)
    requires
        0 <= i <= b.len(),
        forall|k: int| 0 <= k < b.len() ==> !is_ws(#[trigger] b[k]),
    ensures
        skip_non_ws(b, i) == b.len(),
    decreases b.len() - i,
{
    if i < b.len() {
        lemma_word_runs_to_end(b, i + 1);
    }
}

/// The first `"..."` of `b + "..." + u` is the one right after `b`, when `b`
/// holds none and does not end in a dot.
proof fn lemma_first_dots_after(b: Seq<char>, u: Seq<char>)
    requires
        b.len() > 0,
        b[b.len() - 1] != '.',
        !contains(b, "..."@),
    ensures
        find(b + "..."@ + u, "..."@) == Some(b.len() as int),
{
    reveal_strlit("...");
    let d = "..."@;
    let h = b + d + u;
    let n = b.len() as int;
    assert(h.subrange(n, n + 3) =~= d);
    assert(matches_at(h, d, n));
    lemma_find_from(b, d, 0);
    assert forall|k: int| 0 <= k < n implies !matches_at(h, d, k) by {
        if matches_at(h, d, k) {
            if k + 3 <= n {
                assert forall|j: int| 0 <= j < 3 implies #[trigger] b.subrange(k, k + 3)[j]
                    == d[j] by {
                    assert(h.subrange(k, k + 3)[j] == h[k + j]);
                }
                assert(b.subrange(k, k + 3) =~= d);
                assert(matches_at(b, d, k));
            } else {
                assert(h.subrange(k, k + 3)[n - 1 - k] == h[n - 1]);
                assert(h[n - 1] == b[n - 1]);
            }
        }
    }
    lemma_find_from(h, d, 0);
}

/// The branch of a status header `"## " + b + "..." + u` is `b`, dots inside
/// it included, for any upstream part `u`: a branch name without whitespace
/// and without `"..."` that does not end in a dot (Git refuses both in a
/// branch name) is read whole.
pub proof fn lemma_branch_is_text_before_upstream(b: Seq<char>, u: Seq<char>)
    requires
        b.len() > 0,
        forall|k: int| 0 <= k < b.len() ==> !is_ws(#[trigger] b[k]),
        !contains(b, "..."@),
        b[b.len() - 1] != '.',
    ensures
        branch_of("## "@ + b + "..."@ + u) == b,
{
    reveal_strlit("## ");
    let header = "## "@ + b + "..."@ + u;
    assert(header.subrange(0, 3) =~= "## "@);
    assert(matches_at(header, "## "@, 0));
    let h = header.subrange(3, header.len() as int);
    assert(h =~= b + "..."@ + u);
    lemma_first_dots_after(b, u);
    assert(h.subrange(0, b.len() as int) =~= b);
    assert(skip_ws(b, 0) == 0);
    lemma_word_runs_to_end(b, 0);
    assert(b.subrange(0, b.len() as int) =~= b);
}

/// A branch name as Git allows it in a status header: not empty, without
/// whitespace, `[` or `"..."`, and not ending in a dot.
pub open spec fn plain_branch_name(b: Seq<char>) -> bool {
    &&& b.len() > 0
    &&& forall|k: int| 0 <= k < b.len() ==> !is_ws(#[trigger] b[k])
    &&& lacks(b, '[')
    &&& !contains(b, "..."@)
    &&& b[b.len() - 1] != '.'
}

/// A text without whitespace holds no line break.
proof fn lemma_no_ws_no_break(b: Seq<char>)
    requires
        forall|k: int| 0 <= k < b.len() ==> !is_ws(#[trigger] b[k]),
    ensures
        lacks(b, '\n'),
{
    assert forall|k: int| 0 <= k < b.len() implies #[trigger] b[k] != '\n' by {
        if b[k] == '\n' {
            assert(is_ws(b[k]));
        }
    }
}

/// A status output of one line is its own header and has a clean work tree.
proof fn lemma_single_line(s: Seq<char>)
    requires
        lacks(s, '\n'),
    ensures
        first_break(s) == s.len(),
        first_line(s) == s,
        !has_dirty_line(s),
{
    lemma_index_of_char_absent(s, '\n', 0);
    assert(s.subrange(0, s.len() as int) =~= s);
}

/// The decimal rendering of a count holds only digits.
proof fn lemma_decimal_lacks(n: nat, c: char)
    requires
        !crate::text::is_digit(c),
    ensures
        lacks(decimal(n), c),
{
    lemma_decimal_reads_back(n);
}

/// The marker word of a count: `ahead` or `behind`.
pub open spec fn count_marker(ahead: bool) -> Seq<char> {
    if ahead {
        "ahead"@
    } else {
        "behind"@
    }
}

/// Text without `c` stays without it when `" "`, a count and `"]"` follow.
proof fn lemma_count_tail_lacks(x: Seq<char>, n: nat, c: char)
    requires
        lacks(x, c),
        c != ' ',
        c != ']',
        !crate::text::is_digit(c),
    ensures
        lacks(x + " "@ + decimal(n) + "]"@, c),
{
    reveal_strlit(" ");
    reveal_strlit("]");
    assert(lacks(" "@, c));
    assert(lacks("]"@, c));
    lemma_decimal_lacks(n, c);
    lemma_lacks_concat(x, " "@, c);
    lemma_lacks_concat(x + " "@, decimal(n), c);
    lemma_lacks_concat(x + " "@ + decimal(n), "]"@, c);
}

/// `"## " + b + "..." + u` lacks `c` when `b` and `u` do and `c` is none of
/// `#`, space and `.`.
proof fn lemma_upstream_head_lacks(b: Seq<char>, u: Seq<char>, c: char)
    requires
        lacks(b, c),
        lacks(u, c),
        c != '#',
        c != ' ',
        c != '.',
    ensures
        lacks("## "@ + b + "..."@ + u, c),
{
    reveal_strlit("## ");
    reveal_strlit("...");
    assert(lacks("## "@, c));
    assert(lacks("..."@, c));
    lemma_lacks_concat("## "@, b, c);
    lemma_lacks_concat("## "@ + b, "..."@, c);
    lemma_lacks_concat("## "@ + b + "..."@, u, c);
}

/// A header with one count is a single line.
proof fn lemma_single_count_one_line(b: Seq<char>, u: Seq<char>, ahead: bool, n: nat)
    requires
        lacks(b, '\n'),
        lacks(u, '\n'),
    ensures
        lacks("## "@ + b + "..."@ + u + " ["@ + count_marker(ahead) + " "@ + decimal(n) + "]"@, '\n'),
{
    reveal_strlit(" [");
    reveal_strlit("ahead");
    reveal_strlit("behind");
    let head = "## "@ + b + "..."@ + u;
    lemma_upstream_head_lacks(b, u, '\n');
    assert(lacks(" ["@, '\n'));
    assert(lacks(count_marker(ahead), '\n'));
    lemma_lacks_concat(head, " ["@, '\n');
    lemma_lacks_concat(head + " ["@, count_marker(ahead), '\n');
    lemma_count_tail_lacks(head + " ["@ + count_marker(ahead), n, '\n');
}

/// The tracking part of a header with one count lacks the first letter of
/// the other marker, so that marker gives no count.
proof fn lemma_other_count_absent(ahead: bool, n: nat)
    ensures
        count_after(count_marker(ahead) + " "@ + decimal(n) + "]"@, count_marker(!ahead)) is None,
{
    reveal_strlit("ahead");
    reveal_strlit("behind");
    let t = count_marker(ahead) + " "@ + decimal(n) + "]"@;
    let other = count_marker(!ahead);
    let c = other[0];
    assert(lacks(count_marker(ahead), c));
    lemma_count_tail_lacks(count_marker(ahead), n, c);
    lemma_lacks_first_char(t, other);
}

/// The status of a branch that has an upstream and is ahead of it, or
/// behind it, by `n` commits: the header `"## b...u [ahead n]"` (or
/// `[behind n]`) parses to the branch `b`, that one count, the matching sync
/// state and a clean work tree.
pub proof fn lemma_parse_single_count(b: Seq<char>, u: Seq<char>, ahead: bool, n: usize, r: RepoStatus)
    requires
        plain_branch_name(b),
        lacks(u, '\n'),
        lacks(u, '['),
        is_parse_of(
            r,
            "## "@ + b + "..."@ + u + " ["@ + count_marker(ahead) + " "@ + decimal(n as nat) + "]"@,
        ),
    ensures
        r.branch@ == b,
        !r.worktree_dirty,
        ahead ==> r.ahead == Some(n) && r.behind is None && r.sync == SyncStatus::NeedsPush(n),
        !ahead ==> r.ahead is None && r.behind == Some(n) && r.sync == SyncStatus::NeedsPull(n),
{
    reveal_strlit(" [");
    reveal_strlit("[");
    reveal_strlit(" ");
    let m = count_marker(ahead);
    let d = decimal(n as nat);
    let head = "## "@ + b + "..."@ + u;
    let s = head + " ["@ + m + " "@ + d + "]"@;
    let prefix = head + " "@;
    let rest = u + " ["@ + m + " "@ + d + "]"@;
    let t = m + " "@ + d + "]"@;
    assert(s =~= prefix + "["@ + m + " "@ + d + "]"@);
    assert(s =~= "## "@ + b + "..."@ + rest);
    lemma_no_ws_no_break(b);
    lemma_single_count_one_line(b, u, ahead, n as nat);
    lemma_single_line(s);
    lemma_branch_is_text_before_upstream(b, rest);
    assert(lacks(prefix, '[')) by {
        lemma_upstream_head_lacks(b, u, '[');
        assert(lacks(" "@, '['));
        lemma_lacks_concat(head, " "@, '[');
    }
    assert(!prefix.contains('[')) by {
        if prefix.contains('[') {
            let k = choose|k: int| 0 <= k < prefix.len() && prefix[k] == '[';
            assert(prefix[k] != '[');
        }
    }
    lemma_count_reads_back(prefix, m, n);
    assert(tracking_part(s) == t) by {
        assert(s =~= prefix + ("["@ + t));
        assert(s[prefix.len() as int] == '[');
        assert forall|k: int| 0 <= k < prefix.len() implies s[k] != '[' by {
            assert(s[k] == prefix[k]);
        }
        lemma_index_of_char(s, '[', 0, prefix.len() as int);
        assert(tracking_part(s) =~= t);
    }
    lemma_other_count_absent(ahead, n as nat);
    assert(contains(s, "..."@)) by {
        lemma_contains_inside("## "@ + b, "..."@, rest);
        assert(s =~= ("## "@ + b) + "..."@ + rest);
    }
}

/// The status of a branch without an upstream: the header `"## b"` parses
/// to the branch `b`, no counts, no upstream and a clean work tree.
pub proof fn lemma_parse_no_upstream(b: Seq<char>, r: RepoStatus)
    requires
        plain_branch_name(b),
        is_parse_of(r, "## "@ + b),
    ensures
        r.branch@ == b,
        r.ahead is None,
        r.behind is None,
        r.sync == SyncStatus::NoUpstream,
        !r.worktree_dirty,
{
    reveal_strlit("## ");
    reveal_strlit("...");
    let s = "## "@ + b;
    let d = "..."@;
    lemma_no_ws_no_break(b);
    assert(lacks("## "@, '\n'));
    lemma_lacks_concat("## "@, b, '\n');
    lemma_single_line(s);
    assert(s.subrange(0, 3) =~= "## "@);
    assert(matches_at(s, "## "@, 0));
    assert(s.subrange(3, s.len() as int) =~= b);
    assert(b.subrange(0, b.len() as int) =~= b);
    assert(skip_ws(b, 0) == 0);
    lemma_word_runs_to_end(b, 0);
    assert(lacks("## "@, '['));
    lemma_lacks_concat("## "@, b, '[');
    assert(!s.contains('[')) by {
        if s.contains('[') {
            let k = choose|k: int| 0 <= k < s.len() && s[k] == '[';
            assert(s[k] != '[');
        }
    }
    lemma_counts_only_in_tracking_part(s, "ahead"@);
    lemma_counts_only_in_tracking_part(s, "behind"@);
    lemma_find_from(b, d, 0);
    lemma_find_from(s, d, 0);
    if let Some(j) = find(s, d) {
        if j >= 3 {
            assert forall|i: int| 0 <= i < 3 implies #[trigger] b.subrange(j - 3, j)[i] == d[i] by {
                assert(s.subrange(j, j + 3)[i] == s[j + i]);
            }
            assert(b.subrange(j - 3, j) =~= d);
            assert(matches_at(b, d, j - 3));
        } else {
            assert(s.subrange(j, j + 3)[0] == s[j]);
        }
    }
}

/// The work tree is dirty exactly when some line after the header holds
/// anything but whitespace.
pub proof fn lemma_dirty_after_header(header: Seq<char>, rest: Seq<char>, r: RepoStatus)
    requires
        lacks(header, '\n'),
        is_parse_of(r, header + "\n"@ + rest),
    ensures
        r.worktree_dirty <==> exists|k: int| 0 <= k < rest.len() && !is_ws(#[trigger] rest[k]),
{
    reveal_strlit("\n");
    let s = header + "\n"@ + rest;
    let p = header.len() as int;
    assert(s[p] == '\n');
    assert forall|k: int| 0 <= k < p implies s[k] != '\n' by {
        assert(s[k] == header[k]);
    }
    lemma_index_of_char(s, '\n', 0, p);
    if r.worktree_dirty {
        let k = choose|k: int| first_break(s) < k < s.len() && !is_ws(#[trigger] s[k]);
        assert(s[k] == rest[k - p - 1]);
    }
    if exists|k: int| 0 <= k < rest.len() && !is_ws(#[trigger] rest[k]) {
        let k = choose|k: int| 0 <= k < rest.len() && !is_ws(#[trigger] rest[k]);
        assert(s[k + p + 1] == rest[k]);
    }
}

/// The count after the first occurrence of `marker` in a status header.
pub fn parse_marker(header: &Vec<char>, marker: &Vec<char>) -> (r: Option<usize>)
    ensures
        r == marker_count(header@, marker@),
{
    let i = index_of_char_exec(header, '[', 0);
    let tracking = if i < header.len() {
        sub_vec(header, i + 1, header.len())
    } else {
        let empty: Vec<char> = Vec::new();
        assert(empty@ =~= tracking_part(header@));
        empty
    };
    count_after_exec(&tracking, marker)
}

/// The count after the first occurrence of `marker` in `text`.
fn count_after_exec(text: &Vec<char>, marker: &Vec<char>) -> (r: Option<usize>)
    ensures
        r == count_after(text@, marker@),
{
    match find_exec(text, marker) {
        None => None,
        Some(p) => {
            let d0 = skip_non_digit_exec(text, p + marker.len());
            let d1 = skip_digit_exec(text, d0);
            if d0 < d1 {
                digits_to_usize(text, d0, d1)
            } else {
                None
            }
        },
    }
}

/// Two decimal renderings are equal only for equal numbers.
proof fn lemma_decimal_injective(a: nat, b: nat)
    requires
        decimal(a) == decimal(b),
    ensures
        a == b,
{
    lemma_decimal_reads_back(a);
    lemma_decimal_reads_back(b);
}

/// `p + x == p + y` only when `x == y`.
proof fn lemma_cancel_prefix(p: Seq<char>, x: Seq<char>, y: Seq<char>)
    requires
        p + x == p + y,
    ensures
        x == y,
{
    assert(x =~= (p + x).subrange(p.len() as int, (p + x).len() as int));
    assert(y =~= (p + y).subrange(p.len() as int, (p + y).len() as int));
}

/// The two counts of a diverged label are read back from the label.
proof fn lemma_diverged_label_injective(a1: usize, b1: usize, a2: usize, b2: usize)
    requires
        decimal(a1 as nat) + "/-"@ + decimal(b1 as nat) == decimal(a2 as nat) + "/-"@ + decimal(
            b2 as nat,
        ),
    ensures
        a1 == a2,
        b1 == b2,
{
    reveal_strlit("/-");
    let x1 = decimal(a1 as nat);
    let x2 = decimal(a2 as nat);
    let s1 = x1 + "/-"@ + decimal(b1 as nat);
    let s2 = x2 + "/-"@ + decimal(b2 as nat);
    lemma_decimal_reads_back(a1 as nat);
    lemma_decimal_reads_back(a2 as nat);
    if x1.len() < x2.len() {
        assert(s1[x1.len() as int] == '/');
        assert(s2[x1.len() as int] == x2[x1.len() as int]);
        assert(crate::text::is_digit(x2[x1.len() as int]));
        assert(false);
    } else if x2.len() < x1.len() {
        assert(s2[x2.len() as int] == '/');
        assert(s1[x2.len() as int] == x1[x2.len() as int]);
        assert(crate::text::is_digit(x1[x2.len() as int]));
        assert(false);
    }
    assert(x1 =~= s1.subrange(0, x1.len() as int));
    assert(x2 =~= s2.subrange(0, x2.len() as int));
    lemma_decimal_injective(a1 as nat, a2 as nat);
    lemma_cancel_prefix(x1 + "/-"@, decimal(b1 as nat), decimal(b2 as nat));
    lemma_decimal_injective(b1 as nat, b2 as nat);
}

/// Each sync label names exactly one sync state: different states, counts
/// included, get different labels.
pub proof fn lemma_sync_labels_differ(s1: SyncStatus, s2: SyncStatus)
    requires
        s1 != s2,
    ensures
        sync_text(s1) != sync_text(s2),
{
    reveal_strlit("clean");
    reveal_strlit("ahead ");
    reveal_strlit("behind ");
    reveal_strlit("diverged +");
    reveal_strlit("no upstream");
    reveal_strlit("missing path");
    reveal_strlit("not a git repo");
    reveal_strlit("unknown");
    if sync_text(s1) == sync_text(s2) {
        let t = sync_text(s1);
        match (s1, s2) {
            (SyncStatus::NeedsPush(a), SyncStatus::NeedsPush(b)) => {
                lemma_cancel_prefix("ahead "@, decimal(a as nat), decimal(b as nat));
                lemma_decimal_injective(a as nat, b as nat);
            },
            (SyncStatus::NeedsPull(a), SyncStatus::NeedsPull(b)) => {
                lemma_cancel_prefix("behind "@, decimal(a as nat), decimal(b as nat));
                lemma_decimal_injective(a as nat, b as nat);
            },
            (
                SyncStatus::Diverged { ahead: a1, behind: b1 },
                SyncStatus::Diverged { ahead: a2, behind: b2 },
            ) => {
                assert(sync_text(s1) =~= "diverged +"@ + (decimal(a1 as nat) + "/-"@ + decimal(
                    b1 as nat,
                )));
                assert(sync_text(s2) =~= "diverged +"@ + (decimal(a2 as nat) + "/-"@ + decimal(
                    b2 as nat,
                )));
                lemma_cancel_prefix(
                    "diverged +"@,
                    decimal(a1 as nat) + "/-"@ + decimal(b1 as nat),
                    decimal(a2 as nat) + "/-"@ + decimal(b2 as nat),
                );
                lemma_diverged_label_injective(a1, b1, a2, b2);
            },
            _ => {
                assert(sync_text(s1)[0] == sync_text(s2)[0]);
                assert(sync_text(s1)[2] == sync_text(s2)[2]);
            },
        }
    }
}

/// The text of the sync column for `sync`.
pub fn sync_label(sync: &SyncStatus) -> (r: String)
    ensures
        r@ == sync_text(*sync),
{
    match sync {
        SyncStatus::Clean => owned("clean"),
        SyncStatus::NeedsPush(n) => {
            let mut s = owned("ahead ");
            push_decimal(&mut s, *n);
            s
        },
        SyncStatus::NeedsPull(n) => {
            let mut s = owned("behind ");
            push_decimal(&mut s, *n);
            s
        },
        SyncStatus::Diverged { ahead, behind } => {
            let mut s = owned("diverged +");
            push_decimal(&mut s, *ahead);
            s.append("/-");
            push_decimal(&mut s, *behind);
            s
        },
        SyncStatus::NoUpstream => owned("no upstream"),
        SyncStatus::MissingPath => owned("missing path"),
        SyncStatus::NotGitRepo => owned("not a git repo"),
        SyncStatus::Unknown => owned("unknown"),
    }
}

/// The text of the path column: the last path component in short form (the
/// whole path when it has none), else the whole path.
pub open spec fn path_cell(path: Seq<char>, short: bool) -> Seq<char> {
    if short {
        match path_file_name(path) {
            Some(n) => n,
            None => path,
        }
    } else {
        path
    }
}

/// The status used for a row: the snapshot when it could be taken, else an
/// unknown sync state on the stored branch (or `"-"`) with a clean work tree.
pub open spec fn row_branch(repo: Repository, snapshot: Option<RepoStatus>) -> Seq<char> {
    match snapshot {
        Some(s) => s.branch@,
        None => match repo.current_branch {
            Some(b) => b@,
            None => "-"@,
        },
    }
}

/// A status snapshot decides the branch cell: with one, the cell is the
/// branch the snapshot reports, whatever branch the registry stored for the
/// repository; only without one does the stored branch (or `"-"`) show.
pub proof fn lemma_row_branch_follows_snapshot(
    repo: Repository,
    other: Repository,
    snapshot: RepoStatus,
)
    ensures
        row_branch(repo, Some(snapshot)) == snapshot.branch@,
        row_branch(repo, Some(snapshot)) == row_branch(other, Some(snapshot)),
        repo.current_branch matches Some(b) ==> row_branch(repo, None) == b@,
        repo.current_branch is None ==> row_branch(repo, None) == "-"@,
{
}

/// The row of the status table for `repo`. `snapshot` is the repository's
/// current status, or `None` when it could not be read.
pub fn status_row(repo: &Repository, snapshot: Option<RepoStatus>, short: bool) -> (r: StatusRow)
    ensures
        r.name@ == repo.name@,
        r.path@ == path_cell(repo.path@, short),
        r.remote@ == (match repo.remote_url {
            Some(u) => u@,
            None => "-"@,
        }),
        r.branch@ == row_branch(*repo, snapshot),
        snapshot matches Some(s) ==> r.branch@ == s.branch@,
        r.sync@ == sync_text(
            match snapshot {
                Some(s) => s.sync,
                None => SyncStatus::Unknown,
            },
        ),
        r.worktree@ == (if snapshot matches Some(s) && s.worktree_dirty {
            "dirty"@
        } else {
            "clean"@
        }),
{
    let (branch, sync, dirty) = match snapshot {
        Some(s) => (s.branch, s.sync, s.worktree_dirty),
        None => {
            let b = match &repo.current_branch {
                Some(b) => b.clone(),
                None => owned("-"),
            };
            (b, SyncStatus::Unknown, false)
        },
    };
    let path = if short {
        match file_name_of(repo.path.as_str()) {
            Some(n) => n,
            None => repo.path.clone(),
        }
    } else {
        repo.path.clone()
    };
    let remote = match &repo.remote_url {
        Some(u) => u.clone(),
        None => owned("-"),
    };
    StatusRow {
        name: repo.name.clone(),
        path,
        remote,
        branch,
        sync: sync_label(&sync),
        worktree: if dirty {
            owned("dirty")
        } else {
            owned("clean")
        },
    }
}

} // verus!
