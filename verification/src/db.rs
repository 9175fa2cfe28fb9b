//! The repository record that the registry stores and the tables show.

use crate::paths::{file_name_of, path_file_name};
use crate::text::{
    chars_of, contains, lemma_like_plain_text_is_contains, like, like_exec, lowercase,
    no_wildcards, owned, to_lowercase,
};
use vstd::prelude::*;

verus! {

/// A tracked repository as the registry stores it.
///
/// `path` is the repository's absolute path as text.
#[derive(Debug, Clone, PartialEq, Eq)]
pub struct Repository {
    pub id: Option<i64>,
    pub name: String,
    pub path: String,
    pub remote_url: Option<String>,
    pub current_branch: Option<String>,
}

/// The name of a repository found at `path`: the last component of the
/// path, or `"repository"` when the path has none.
pub open spec fn repository_name(path: Seq<char>) -> Seq<char> {
    match path_file_name(path) {
        Some(n) => n,
        None => "repository"@,
    }
}

/// The record of a repository found at the resolved `path`, with the remote
/// and branch Git reports for it; it has no registry id yet.
pub fn repository_from_path(
    path: String,
    remote_url: Option<String>,
    current_branch: Option<String>,
) -> (r: Repository)
    ensures
        r.id is None,
        r.name@ == repository_name(path@),
        r.path == path,
        r.remote_url == remote_url,
        r.current_branch == current_branch,
{
    let name = match file_name_of(path.as_str()) {
        Some(n) => n,
        None => owned("repository"),
    };
    Repository { id: None, name, path, remote_url, current_branch }
}

/// The `LIKE` pattern a name filter stands for: the lower-cased filter with
/// `%` on both sides, so that it matches anywhere in a name. A `%` or `_`
/// inside the filter keeps its `LIKE` meaning.
pub open spec fn name_pattern(filter: Seq<char>) -> Seq<char> {
    seq!['%'] + lowercase(filter) + seq!['%']
}

/// A repository name matches a filter when the lower-cased name matches the
/// filter's `LIKE` pattern.
pub open spec fn name_matches(name: Seq<char>, filter: Seq<char>) -> bool {
    like(lowercase(name), name_pattern(filter))
}

/// A filter without `LIKE` wildcards matches a name exactly when the
/// lower-cased name contains the whole lower-cased filter.
pub proof fn lemma_plain_filter_matches_by_containment(name: Seq<char>, filter: Seq<char>)
    ensures
        no_wildcards(lowercase(filter)) ==> (name_matches(name, filter) <==> contains(
            lowercase(name),
            lowercase(filter),
        )),
{
    if no_wildcards(lowercase(filter)) {
        lemma_like_plain_text_is_contains(lowercase(name), lowercase(filter));
    }
}

/// The `LIKE` pattern of a name filter, as characters.
fn name_pattern_exec(filter: &str) -> (r: Vec<char>)
    ensures
        r@ == name_pattern(filter@),
{
    let lowered = chars_of(to_lowercase(filter).as_str());
    let mut r: Vec<char> = Vec::new();
    r.push('%');
    let mut k: usize = 0;
    while k < lowered.len()
        invariant
            k <= lowered.len(),
            r@ == seq!['%'] + lowered@.take(k as int),
        decreases lowered.len() - k,
    {
        r.push(lowered[k]);
        assert(lowered@.take(k + 1) =~= lowered@.take(k as int).push(lowered@[k as int]));
        k = k + 1;
    }
    assert(lowered@.take(k as int) =~= lowered@);
    r.push('%');
    assert(r@ =~= name_pattern(filter@));
    r
}

/// The repositories whose name matches `filter`, ignoring case, in the
/// order given. The filter is read as a `LIKE` pattern that may match
/// anywhere in the name: `%` in it stands for any run of characters and `_`
/// for any one character.
pub fn filter_by_name(repos: Vec<Repository>, filter: &str) -> (r: Vec<Repository>)
    ensures
        r@ == repos@.filter(|x: Repository| name_matches(x.name@, filter@)),
{
    let ghost pred = |x: Repository| name_matches(x.name@, filter@);
    let ghost all = repos@;
    let pattern = name_pattern_exec(filter);
    let mut rest = repos;
    let mut kept: Vec<Repository> = Vec::new();
    let ghost mut k: int = 0;
    assert(all.take(0) =~= Seq::<Repository>::empty());
    while rest.len() > 0
        invariant
            0 <= k,
            k + rest@.len() == all.len(),
            rest@ == all.skip(k as int),
            kept@ == all.take(k as int).filter(pred),
            pattern@ == name_pattern(filter@),
            pred == (|x: Repository| name_matches(x.name@, filter@)),
        decreases rest.len(),
    {
        let ghost before = rest@;
        let repo = rest.remove(0);
        assert(repo == all[k as int]);
        assert(rest@ =~= all.skip(k + 1));
        let lowered = chars_of(to_lowercase(repo.name.as_str()).as_str());
        let keep = like_exec(&lowered, &pattern);
        assert(all.take(k + 1).drop_last() =~= all.take(k as int));
        assert(all.take(k + 1).last() == repo);
        assert(keep == pred(repo));
        let ghost prefix = all.take(k + 1);
        reveal_with_fuel(Seq::<_>::filter, 1);
        assert(prefix.filter(pred) == if pred(prefix.last()) {
            prefix.drop_last().filter(pred).push(prefix.last())
        } else {
            prefix.drop_last().filter(pred)
        });
        if keep {
            kept.push(repo);
        }
        proof {
            k = k + 1;
        }
    }
    assert(all.take(k as int) =~= all);
    kept
}

} // verus!
