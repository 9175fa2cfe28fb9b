//! The decisions of a repository scan: which directories are pruned, which are
//! recorded as repositories, and the order of what was found.

use crate::db::Repository;
use crate::paths::{path_le, path_order};
use crate::text::{chars_of, owned};
use vstd::prelude::*;

verus! {

broadcast use vstd::seq_lib::group_to_multiset_ensures;

/// How a scan walks the tree.
#[derive(Debug, Clone)]
pub struct ScanOptions {
    pub max_depth: Option<usize>,
    pub include_hidden: bool,
}

/// What a scan found: the repositories, ordered by path, and how many
/// directories it did not descend into.
#[derive(Debug)]
pub struct ScanResult {
    pub repositories: Vec<Repository>,
    pub pruned_directories: usize,
}

/// The directory names a scan never descends into.
pub open spec fn pruned_names() -> Seq<Seq<char>> {
    seq![
        ".git"@,
        "node_modules"@,
        ".venv"@,
        "venv"@,
        "env"@,
        ".cache"@,
        ".cache-loader"@,
        "target"@,
        "dist"@,
        "build"@,
        "out"@,
        ".next"@,
        ".nuxt"@,
        ".svelte-kit"@,
        ".turbo"@,
        ".parcel-cache"@,
        "coverage"@,
        "vendor"@,
        "Pods"@,
        "DerivedData"@,
        ".gradle"@,
        ".idea"@,
        ".vscode"@,
        "__pycache__"@,
        ".mypy_cache"@,
        ".pytest_cache"@,
        ".tox"@,
    ]
}

/// A directory of this name is pruned: it is one of the pruned names, or it
/// is hidden (starts with `.`) and hidden directories are not included.
pub open spec fn prunes(name: Seq<char>, include_hidden: bool) -> bool {
    pruned_names().contains(name) || (!include_hidden && name.len() > 0 && name[0] == '.')
}

/// `.git` is pruned even when hidden directories are included.
pub proof fn lemma_git_dir_always_pruned(include_hidden: bool)
    ensures
        prunes(".git"@, include_hidden),
{
    assert(pruned_names()[0] == ".git"@);
}

/// Only the listed names and hidden names are pruned, and hidden means a
/// leading `.`: a name that is not listed and does not start with `.` is
/// walked into, whatever dots it holds further on; one that starts with `.`
/// is pruned unless hidden directories are included; with them included,
/// exactly the listed names are pruned.
pub proof fn lemma_pruned_means_listed_or_hidden(name: Seq<char>, include_hidden: bool)
    ensures
        !pruned_names().contains(name) && !(name.len() > 0 && name[0] == '.') ==> !prunes(
            name,
            include_hidden,
        ),
        name.len() > 0 && name[0] == '.' ==> prunes(name, false),
        prunes(name, true) <==> pruned_names().contains(name),
        prunes(name, true) ==> prunes(name, include_hidden),
{
}

/// The directory names a scan never descends into.
pub fn pruned_dirs() -> (r: Vec<&'static str>)
    ensures
        r@.map_values(|s: &str| s@) == pruned_names(),
{
    let r = vec![
        ".git",
        "node_modules",
        ".venv",
        "venv",
        "env",
        ".cache",
        ".cache-loader",
        "target",
        "dist",
        "build",
        "out",
        ".next",
        ".nuxt",
        ".svelte-kit",
        ".turbo",
        ".parcel-cache",
        "coverage",
        "vendor",
        "Pods",
        "DerivedData",
        ".gradle",
        ".idea",
        ".vscode",
        "__pycache__",
        ".mypy_cache",
        ".pytest_cache",
        ".tox",
    ];
    assert(r@.map_values(|s: &str| s@) =~= pruned_names());
    r
}

/// Whether a directory named `name` is pruned under `options`.
pub fn should_prune(name: &str, options: &ScanOptions) -> (b: bool)
    ensures
        b == prunes(name@, options.include_hidden),
        !pruned_names().contains(name@) && !(name@.len() > 0 && name@[0] == '.') ==> !b,
{
    let dirs = pruned_dirs();
    let target = owned(name);
    let ghost names = dirs@.map_values(|s: &str| s@);
    let mut i: usize = 0;
    while i < dirs.len()
        invariant
            i <= dirs.len(),
            names == dirs@.map_values(|s: &str| s@),
            names == pruned_names(),
            target@ == name@,
            forall|j: int| 0 <= j < i ==> names[j] != name@,
        decreases dirs.len() - i,
    {
        let candidate = owned(dirs[i]);
        if candidate == target {
            assert(names[i as int] == name@);
            return true;
        }
        i = i + 1;
    }
    assert(!pruned_names().contains(name@));
    if options.include_hidden {
        return false;
    }
    let v = chars_of(name);
    v.len() > 0 && v[0] == '.'
}

/// Each repository sorts no later than the next one, by path.
pub open spec fn sorted_by_path(s: Seq<Repository>) -> bool {
    forall|i: int| 0 <= i < s.len() - 1 ==> path_order(#[trigger] s[i].path@, s[i + 1].path@)
}

/// `r` holds the repositories of `items` rearranged by `idx`: `r[i]` is
/// `items[idx[i]]`, each item used once; and the rearrangement is stable:
/// when a later repository of `r` sorts no later than an earlier one (their
/// paths tie), they keep the order they had in `items`.
pub open spec fn stable_arrangement(items: Seq<Repository>, r: Seq<Repository>, idx: Seq<int>) -> bool {
    &&& idx.len() == r.len()
    &&& forall|i: int| 0 <= i < r.len() ==> 0 <= #[trigger] idx[i] < items.len()
    &&& forall|i: int| 0 <= i < r.len() ==> r[i] == items[#[trigger] idx[i]]
    &&& forall|i: int, j: int| 0 <= i < j < r.len() ==> #[trigger] idx[i] != #[trigger] idx[j]
    &&& forall|i: int, j: int|
        0 <= i < j < r.len() && path_order(#[trigger] r[j].path@, #[trigger] r[i].path@) ==> idx[i]
            < idx[j]
}

/// The repositories of `items` reordered by path, as a stable sort orders
/// them: the same repositories, each sorting no later than the next, and
/// repositories with tied paths in the order they came.
pub fn sort_by_path(items: Vec<Repository>) -> (r: Vec<Repository>)
    ensures
        r@.to_multiset() == items@.to_multiset(),
        r@.len() == items@.len(),
        sorted_by_path(r@),
        exists|idx: Seq<int>| stable_arrangement(items@, r@, idx),
{
    let ghost all = items@;
    let mut rest = items;
    let mut out: Vec<Repository> = Vec::new();
    let ghost mut idx: Seq<int> = Seq::empty();
    let ghost mut k: int = 0;
    while rest.len() > 0
        invariant
            0 <= k,
            k + rest@.len() == all.len(),
            rest@ == all.skip(k),
            out@.len() == k,
            out@.to_multiset().add(rest@.to_multiset()) == all.to_multiset(),
            sorted_by_path(out@),
            idx.len() == out@.len(),
            forall|i: int| 0 <= i < out@.len() ==> 0 <= #[trigger] idx[i] < k,
            forall|i: int| 0 <= i < out@.len() ==> out@[i] == all[#[trigger] idx[i]],
            forall|i: int, j: int| 0 <= i < j < out@.len() ==> #[trigger] idx[i] != #[trigger] idx[j],
            forall|i: int, j: int|
                0 <= i < j < out@.len() && path_order(#[trigger] out@[j].path@, #[trigger] out@[i].path@)
                    ==> idx[i] < idx[j],
        decreases rest.len(),
    {
        let ghost before = rest@;
        let x = rest.remove(0);
        assert(x == all[k]);
        assert(rest@ =~= all.skip(k + 1));
        assert(before =~= seq![x] + rest@);
        proof {
            vstd::seq_lib::lemma_multiset_commutative(seq![x], rest@);
        }
        let mut p: usize = out.len();
        loop
            invariant
                p <= out.len(),
                forall|j: int|
                    p <= j < out.len() ==> !path_order(#[trigger] out@[j].path@, x.path@)
                        && path_order(x.path@, out@[j].path@),
            ensures
                p <= out.len(),
                forall|j: int|
                    p <= j < out.len() ==> !path_order(#[trigger] out@[j].path@, x.path@)
                        && path_order(x.path@, out@[j].path@),
                p > 0 ==> path_order(out@[p - 1].path@, x.path@),
            decreases p,
        {
            if p == 0 {
                break;
            }
            if path_le(out[p - 1].path.as_str(), x.path.as_str()) {
                break;
            }
            p = p - 1;
        }
        let ghost old_out = out@;
        let ghost old_idx = idx;
        out.insert(p, x);
        proof {
            idx = old_idx.insert(p as int, k);
            assert(out@ == old_out.insert(p as int, x));
            assert forall|i: int| 0 <= i < out@.len() - 1 implies path_order(
                #[trigger] out@[i].path@,
                out@[i + 1].path@,
            ) by {
                if i < p as int - 1 {
                    assert(out@[i] == old_out[i] && out@[i + 1] == old_out[i + 1]);
                } else if i == p as int - 1 {
                    assert(out@[i] == old_out[i] && out@[i + 1] == x);
                } else if i == p as int {
                    assert(out@[i] == x && out@[i + 1] == old_out[p as int]);
                } else {
                    assert(out@[i] == old_out[i - 1] && out@[i + 1] == old_out[i]);
                }
            }
            assert forall|i: int| 0 <= i < out@.len() implies 0 <= #[trigger] idx[i] < k + 1 by {
                if i < p as int {
                    assert(idx[i] == old_idx[i]);
                } else if i > p as int {
                    assert(idx[i] == old_idx[i - 1]);
                }
            }
            assert forall|i: int| 0 <= i < out@.len() implies out@[i] == all[#[trigger] idx[i]] by {
                if i < p as int {
                    assert(idx[i] == old_idx[i] && out@[i] == old_out[i]);
                } else if i > p as int {
                    assert(idx[i] == old_idx[i - 1] && out@[i] == old_out[i - 1]);
                }
            }
            assert forall|i: int, j: int|
                0 <= i < j < out@.len() implies #[trigger] idx[i] != #[trigger] idx[j] by {
                let oi = if i < p as int { i } else { i - 1 };
                let oj = if j < p as int { j } else { j - 1 };
                if i != p as int && j != p as int {
                    assert(idx[i] == old_idx[oi] && idx[j] == old_idx[oj]);
                } else if i == p as int {
                    assert(idx[j] == old_idx[oj]);
                } else {
                    assert(idx[i] == old_idx[oi]);
                }
            }
            assert forall|i: int, j: int|
                0 <= i < j < out@.len() && path_order(
                    #[trigger] out@[j].path@,
                    #[trigger] out@[i].path@,
                ) implies idx[i] < idx[j] by {
                let oi = if i < p as int { i } else { i - 1 };
                let oj = if j < p as int { j } else { j - 1 };
                if i != p as int && j != p as int {
                    assert(idx[i] == old_idx[oi] && idx[j] == old_idx[oj]);
                    assert(out@[i] == old_out[oi] && out@[j] == old_out[oj]);
                } else if j == p as int {
                    assert(idx[i] == old_idx[oi]);
                } else {
                    assert(out@[j] == old_out[oj]);
                    assert(out@[i] == x);
                }
            }
            k = k + 1;
        }
    }
    assert(rest@.to_multiset() =~= vstd::multiset::Multiset::empty());
    assert(stable_arrangement(all, out@, idx));
    out
}

/// What a scan does with a directory entry it has just reached.
#[derive(Debug, Clone, Copy, PartialEq, Eq, Structural)]
pub enum ScanAction {
    /// Count the directory as pruned and do not descend into it.
    Prune,
    /// Record the directory as a repository and do not descend into it.
    RecordRepository,
    /// Nothing to record; descend into it when it is a directory.
    Continue,
}

/// What a scan has found so far.
#[derive(Debug)]
pub struct ScanState {
    pub repositories: Vec<Repository>,
    pub pruned_directories: usize,
}

/// The action for an entry at `depth` below the root, named `name`;
/// `has_git` tells whether the entry holds a `.git` entry. The root itself
/// is never pruned; a repository directory is recorded whole.
pub open spec fn scan_action(
    depth: usize,
    is_dir: bool,
    name: Seq<char>,
    has_git: bool,
    include_hidden: bool,
) -> ScanAction {
    if depth > 0 && is_dir && prunes(name, include_hidden) {
        ScanAction::Prune
    } else if is_dir && has_git {
        ScanAction::RecordRepository
    } else {
        ScanAction::Continue
    }
}

impl ScanState {
    /// A scan that has found nothing yet.
    pub fn new() -> (r: Self)
        ensures
            r.repositories@.len() == 0,
            r.pruned_directories == 0,
    {
        ScanState { repositories: Vec::new(), pruned_directories: 0 }
    }

    /// Decides what to do with an entry; a pruned directory is counted.
    pub fn visit(
        &mut self,
        depth: usize,
        is_dir: bool,
        name: &str,
        has_git: bool,
        options: &ScanOptions,
    ) -> (a: ScanAction)
        requires
            old(self).pruned_directories < usize::MAX,
        ensures
            a == scan_action(depth, is_dir, name@, has_git, options.include_hidden),
            final(self).repositories == old(self).repositories,
            final(self).pruned_directories == old(self).pruned_directories + if a == ScanAction::Prune {
                1int
            } else {
                0int
            },
    {
        if depth > 0 && is_dir && should_prune(name, options) {
            self.pruned_directories = self.pruned_directories + 1;
            ScanAction::Prune
        } else if is_dir && has_git {
            ScanAction::RecordRepository
        } else {
            ScanAction::Continue
        }
    }

    /// Adds a found repository.
    pub fn record_repository(&mut self, repo: Repository)
        ensures
            final(self).repositories@ == old(self).repositories@.push(repo),
            final(self).pruned_directories == old(self).pruned_directories,
    {
        self.repositories.push(repo);
    }

    /// The scan's result: the repositories found, ordered by path as a
    /// stable sort orders them, and the number of pruned directories.
    pub fn finish(self) -> (r: ScanResult)
        ensures
            r.repositories@.to_multiset() == self.repositories@.to_multiset(),
            sorted_by_path(r.repositories@),
            exists|idx: Seq<int>| stable_arrangement(self.repositories@, r.repositories@, idx),
            r.pruned_directories == self.pruned_directories,
    {
        ScanResult {
            repositories: sort_by_path(self.repositories),
            pruned_directories: self.pruned_directories,
        }
    }
}

/// A scan path as it is stored, unchanged.
pub fn normalize_path(path: String) -> (r: String)
    ensures
        r == path,
{
    path
}

} // verus!
