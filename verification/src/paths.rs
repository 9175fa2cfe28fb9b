//! What `std::path` says about paths held as text: their last component,
//! their order, whether they are absolute, and how they join.

use vstd::prelude::*;

verus! {

/// The final component of a path, as `std::path::Path::file_name` gives it
/// (absent when the path ends in `..` or has no components).
pub uninterp spec fn path_file_name(path: Seq<char>) -> Option<Seq<char>>;

/// Calls `std::path::Path::file_name` on `path`, converted back to text.
/// Claimed: the result is `path_file_name` of the path. The component is
/// always valid text here, since the path was built from a `&str`.
#[verifier::external_body]
pub(crate) fn file_name_of(path: &str) -> (r: Option<String>)
    ensures
        r matches Some(n) ==> path_file_name(path@) == Some(n@),
        r is None ==> path_file_name(path@) is None,
{
    match std::path::Path::new(path).file_name() {
        Some(name) => match name.to_str() {
            Some(text) => Some(text.to_string()),
            None => None,
        },
        None => None,
    }
}

/// The order of `std::path::Path`: `a` sorts no later than `b`.
pub uninterp spec fn path_order(a: Seq<char>, b: Seq<char>) -> bool;

/// Calls `<Path as PartialOrd>::le` on the two paths. Claimed: the result is
/// `path_order` of the two texts, and, since `Ord` for `Path` is a total
/// order, when `a` does not sort before or with `b`, `b` sorts before `a`.
#[verifier::external_body]
pub(crate) fn path_le(a: &str, b: &str) -> (r: bool)
    ensures
        r == path_order(a@, b@),
        !r ==> path_order(b@, a@),
{
    std::path::Path::new(a) <= std::path::Path::new(b)
}

/// Whether a path is absolute, as `std::path::Path::is_absolute` tells.
pub uninterp spec fn path_absolute(path: Seq<char>) -> bool;

/// Calls `std::path::Path::is_absolute`. Claimed: the result is `path_absolute` of the path.
#[verifier::external_body]
pub(crate) fn is_absolute_path(path: &str) -> (r: bool)
    ensures
        r == path_absolute(path@),
{
    std::path::Path::new(path).is_absolute()
}

/// The path `base` joined with `tail`, as `std::path::Path::join` builds it.
pub uninterp spec fn path_joined(base: Seq<char>, tail: Seq<char>) -> Seq<char>;

/// Calls `std::path::Path::join`, converted back to text. Claimed: the
/// result is `path_joined` of the two paths, and, as documented, an absolute
/// `tail` replaces `base`. The conversion loses nothing, since both parts
/// are text.
#[verifier::external_body]
pub(crate) fn join_path(base: &str, tail: &str) -> (r: String)
    ensures
        r@ == path_joined(base@, tail@),
        path_absolute(tail@) ==> r@ == tail@,
{
    std::path::Path::new(base).join(tail).to_string_lossy().to_string()
}

} // verus!
