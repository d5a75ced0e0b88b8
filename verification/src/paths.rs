//! Filesystem path operations of std, used through wrappers. Their results
//! depend on the platform's path conventions, so no contract here gives
//! them as a function of the arguments. Each wrapper's result is instead
//! marked as an outcome of its operation on its arguments (a relation that
//! may hold of several results, one per platform), and the contracts state
//! what holds on every platform; the verified functions that use the
//! results are proved for every outcome.

use vstd::prelude::*;

verus! {

/// `parent` is an outcome of `Path::parent` on `path`, given as a string.
pub uninterp spec fn parent_outcome(path: Seq<char>, parent: Option<Seq<char>>) -> bool;

/// `equal` is an outcome of comparing the paths `a` and `b` with `==`.
pub uninterp spec fn same_path_outcome(a: Seq<char>, b: Seq<char>, equal: bool) -> bool;

/// `shown` is an outcome of rendering the path with `Debug`.
pub uninterp spec fn debug_outcome(path: Seq<char>, shown: Seq<char>) -> bool;

/// The characters of an optional string.
pub open spec fn optional_view(s: Option<String>) -> Option<Seq<char>> {
    match s {
        Some(x) => Some(x@),
        None => None,
    }
}

/// Calls `std::path::Path::parent` on `path`: the path without its final
/// component, or `None` for a root or an empty path. On every platform the
/// parent is a slice at the start of the path that leaves out at least the
/// final component, so it is a proper prefix of the path; what else it is
/// depends on the platform's path syntax and is not stated.
#[verifier::external_body]
pub(crate) fn parent_of(path: &str) -> (res: Option<String>)
    ensures
        parent_outcome(path@, optional_view(res)),
        res matches Some(p) ==> p@.len() < path@.len() && p@ == path@.subrange(0, p@.len() as int),
{
    match std::path::Path::new(path).parent() {
        Some(p) => Some(p.to_string_lossy().into_owned()),
        None => None,
    }
}

/// Calls `PartialEq::eq` of `std::path::Path` on the two paths, which
/// compares them component by component: two paths spelled alike are equal;
/// when differently spelled paths compare equal depends on the platform and
/// is not stated.
#[verifier::external_body]
pub(crate) fn same_path(a: &str, b: &str) -> (res: bool)
    ensures
        same_path_outcome(a@, b@, res),
        a@ == b@ ==> res,
{
    std::path::Path::new(a) == std::path::Path::new(b)
}

/// Formats `std::path::Path` with its `Debug` implementation (a quoted,
/// escaped rendering of the path, whose escapes depend on the platform and
/// on the Unicode tables of the standard library).
#[verifier::external_body]
pub(crate) fn debug_path(path: &str) -> (res: String)
    ensures
        debug_outcome(path@, res@),
{
    format!("{:?}", std::path::Path::new(path))
}

} // verus!
