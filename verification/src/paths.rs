//! Paths below a root directory, kept as text.
//!
//! The roots handled here are canonical absolute paths, as the file system
//! resolves them: no `.` or `..` components, no doubled or trailing
//! separator except in `/` itself.

use vstd::prelude::*;
use vstd::string::*;

verus! {

/// Whether `s` begins with `prefix`.
pub open spec fn has_prefix(s: Seq<char>, prefix: Seq<char>) -> bool {
    prefix.len() <= s.len() && s.subrange(0, prefix.len() as int) == prefix
}

/// `relative` placed below `root`, with one separator between them.
pub open spec fn joined(root: Seq<char>, relative: Seq<char>) -> Seq<char> {
    if root.len() == 0 || root.last() == '/' {
        root + relative
    } else {
        root + seq!['/'] + relative
    }
}

/// Whether the canonical path `path` is `root` or lies below it: the
/// components of `root` are the first components of `path`.
pub open spec fn is_within(path: Seq<char>, root: Seq<char>) -> bool {
    ||| path == root
    ||| (root.len() > 0 && root.last() == '/' && has_prefix(path, root))
    ||| has_prefix(path, root + seq!['/'])
}

/// Place the relative path `relative` below `root`.
pub fn join_below(root: &str, relative: &str) -> (path: String)
    ensures
        path@ == joined(root@, relative@),
{
    let len = root.unicode_len();
    let mut path = String::from_str(root);
    if len > 0 && root.get_char(len - 1) != '/' {
        path.append("/");
        proof {
            reveal_strlit("/");
            assert("/"@ =~= seq!['/']);
        }
    }
    path.append(relative);
    path
}

/// Whether `s` begins with `prefix`.
fn starts_with(s: &str, prefix: &str) -> (res: bool)
    ensures
        res == has_prefix(s@, prefix@),
{
    let len = s.unicode_len();
    let prefix_len = prefix.unicode_len();
    if len < prefix_len {
        return false;
    }
    let head = s.substring_char(0, prefix_len);
    String::from_str(head) == String::from_str(prefix)
}

/// Whether the canonical path `path` is `root` or lies below it.
pub fn path_within(path: &str, root: &str) -> (res: bool)
    ensures
        res == is_within(path@, root@),
{
    if String::from_str(path) == String::from_str(root) {
        return true;
    }
    let len = root.unicode_len();
    if len > 0 && root.get_char(len - 1) == '/' && starts_with(path, root) {
        return true;
    }
    let mut with_separator = String::from_str(root);
    with_separator.append("/");
    proof {
        reveal_strlit("/");
        assert("/"@ =~= seq!['/']);
    }
    starts_with(path, with_separator.as_str())
}

/// A relative path placed below a non-empty root lies within that root and
/// differs from it.
pub proof fn lemma_joined_is_within(root: Seq<char>, relative: Seq<char>)
    requires
        root.len() > 0,
        relative.len() > 0,
    ensures
        is_within(joined(root, relative), root),
        joined(root, relative) != root,
{
    let p = joined(root, relative);
    if root.last() == '/' {
        assert(p.subrange(0, root.len() as int) =~= root);
    } else {
        assert(p.subrange(0, root.len() as int + 1) =~= root + seq!['/']);
    }
    assert(p.len() > root.len());
}

/// A path within a path within `root` is itself within `root`.
pub proof fn lemma_within_is_transitive(path: Seq<char>, middle: Seq<char>, root: Seq<char>)
    requires
        is_within(path, middle),
        is_within(middle, root),
    ensures
        is_within(path, root),
{
    let sep = seq!['/'];
    // `path` begins with `middle` in every case.
    assert(has_prefix(path, middle)) by {
        if path == middle {
            assert(path.subrange(0, middle.len() as int) =~= middle);
        } else if !(middle.len() > 0 && middle.last() == '/' && has_prefix(path, middle)) {
            assert(path.subrange(0, middle.len() as int) =~= (middle + sep).subrange(
                0,
                middle.len() as int,
            ));
            assert((middle + sep).subrange(0, middle.len() as int) =~= middle);
        }
    }
    if middle == root {
    } else if root.len() > 0 && root.last() == '/' && has_prefix(middle, root) {
        assert(path.subrange(0, root.len() as int) =~= middle.subrange(0, root.len() as int));
    } else {
        let r = root + sep;
        assert(has_prefix(middle, r));
        assert(path.subrange(0, r.len() as int) =~= middle.subrange(0, r.len() as int));
    }
}

} // verus!
