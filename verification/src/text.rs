//! Character-level helpers on strings, specified over `Seq<char>`.

use vstd::prelude::*;
use vstd::std_specs::iter::IteratorSpec;

verus! {

/// The characters of `s`, in order.
pub fn chars_of(s: &str) -> (res: Vec<char>)
    ensures
        res@ == s@,
{
    broadcast use vstd::string::group_string_axioms;

    let mut res: Vec<char> = Vec::new();
    for c in iter: s.chars()
        invariant
            res@ == iter.seq().take(iter.index() as int),
    {
        res.push(c);
    }
    res
}

/// Whether `needle` matches the characters of `haystack` starting at `start`.
fn matches_at(haystack: &Vec<char>, needle: &Vec<char>, start: usize) -> (res: bool)
    requires
        start + needle.len() <= haystack.len(),
    ensures
        res == (haystack@.subrange(start as int, start + needle.len()) == needle@),
{
    let mut j: usize = 0;
    while j < needle.len()
        invariant
            j <= needle.len(),
            start + needle.len() <= haystack.len(),
            forall|k: int| 0 <= k < j ==> haystack@[start + k] == needle@[k],
        decreases needle.len() - j,
    {
        if haystack[start + j] != needle[j] {
            assert(haystack@.subrange(start as int, start + needle.len())[j as int] != needle@[j as int]);
            return false;
        }
        j = j + 1;
    }
    assert(haystack@.subrange(start as int, start + needle.len()) =~= needle@);
    true
}

/// A character that separates the components of a path.
pub open spec fn is_path_separator(c: char) -> bool {
    c == '/' || c == '\\'
}

/// The directory `dir` holds `path`, at any depth: `path` is `dir`
/// followed by a separator and more, or `dir` ends with a separator and
/// `path` continues it.
pub open spec fn holds_path(dir: Seq<char>, path: Seq<char>) -> bool {
    &&& dir.len() < path.len()
    &&& path.subrange(0, dir.len() as int) == dir
    &&& (is_path_separator(path[dir.len() as int]) || (dir.len() > 0 && is_path_separator(dir.last())))
}

/// Whether the directory `dir` holds `path`, at any depth.
pub fn dir_holds_path(dir: &str, path: &str) -> (res: bool)
    ensures
        res == holds_path(dir@, path@),
        dir@.len() < path@.len() && path@.subrange(0, dir@.len() as int) == dir@ && (path@[dir@.len() as int]
            == '/' || path@[dir@.len() as int] == '\\') ==> res,
{
    let d = chars_of(dir);
    let p = chars_of(path);
    if d.len() >= p.len() {
        return false;
    }
    if !matches_at(&p, &d, 0) {
        return false;
    }
    let next = p[d.len()];
    if next == '/' || next == '\\' {
        return true;
    }
    if d.len() > 0 {
        let last = d[d.len() - 1];
        return last == '/' || last == '\\';
    }
    false
}

/// A directory holds whatever lies under it: `dir`, a separator, and any
/// rest, whatever characters the rest holds.
pub proof fn law_directory_holds_what_is_under_it(dir: Seq<char>, rest: Seq<char>)
    ensures
        holds_path(dir, dir + seq!['/'] + rest),
        holds_path(dir, dir + seq!['\\'] + rest),
{
    let p = dir + seq!['/'] + rest;
    assert(p.subrange(0, dir.len() as int) =~= dir);
    assert(p[dir.len() as int] == '/');
    let q = dir + seq!['\\'] + rest;
    assert(q.subrange(0, dir.len() as int) =~= dir);
    assert(q[dir.len() as int] == '\\');
}

/// A directory holds no path that does not start with it.
pub proof fn law_directory_holds_only_its_own(dir: Seq<char>, path: Seq<char>)
    requires
        holds_path(dir, path),
    ensures
        dir.is_prefix_of(path),
        dir.len() < path.len(),
{
}

} // verus!
