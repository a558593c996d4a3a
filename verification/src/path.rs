//! File-system paths as text: joining a path onto a directory, and walking
//! from a directory to its parent.

use crate::text::{chars_of, has_prefix, starts_with};
use std::path::Path;
use vstd::prelude::*;
use vstd::string::{StrSliceExecFns, StringExecFns};

verus! {

/// The parent of `path`, as `std::path::Path` sees it: the path without its
/// last component, or nothing where it has none to lose.
pub uninterp spec fn parent_of_path(path: Seq<char>) -> Option<Seq<char>>;

/// The characters of a path that there may be.
pub open spec fn path_view(path: Option<String>) -> Option<Seq<char>> {
    match path {
        Some(text) => Some(text@),
        None => None,
    }
}

/// Asks `std::path::Path::parent` for the parent of `path`. The parent is a
/// function of the path's text alone and goes by the name
/// [`parent_of_path`]; nothing more is claimed of it.
#[verifier::external_body]
fn path_parent(path: &str) -> (parent: Option<String>)
    ensures
        path_view(parent) == parent_of_path(path@),
{
    match Path::new(path).parent() {
        Some(parent) => Some(parent.to_string_lossy().into_owned()),
        None => None,
    }
}

/// `rel` joined onto the directory `base`: `rel` itself where it starts at
/// the root, else `base`, a separator unless `base` is empty or ends in one,
/// and `rel`.
pub open spec fn joined(base: Seq<char>, rel: Seq<char>) -> Seq<char> {
    if rel.len() > 0 && rel[0] == '/' {
        rel
    } else if base.len() > 0 && base.last() != '/' {
        base + seq!['/'] + rel
    } else {
        base + rel
    }
}

/// The parent from which a walk upward goes on: the parent of
/// `path` where it is shorter than `path`.
pub open spec fn step_up(path: Seq<char>) -> Option<Seq<char>> {
    match parent_of_path(path) {
        Some(parent) if parent.len() < path.len() => Some(parent),
        _ => None,
    }
}

/// Whether `dir` is the directory `root` itself, with or without a
/// separator at its end.
pub open spec fn at_root(root: Seq<char>, dir: Seq<char>) -> bool {
    dir == root || dir == root.push('/')
}

/// Whether `dir` lies below the directory `root`, going by the text: it is
/// `root`, a separator, and something more.
pub open spec fn below_root(root: Seq<char>, dir: Seq<char>) -> bool {
    dir.len() > root.len() + 1 && starts_with(dir, root.push('/'))
}

/// Whether `dir` is `root` or lies below it.
pub open spec fn within_root(root: Seq<char>, dir: Seq<char>) -> bool {
    at_root(root, dir) || below_root(root, dir)
}

/// The next directory on the way from `dir` up to `root`: the parent of a
/// directory below the root. The way ends at the root, and there is none
/// from a directory that is not below it.
pub open spec fn step_toward(root: Seq<char>, dir: Seq<char>) -> Option<Seq<char>> {
    if below_root(root, dir) {
        step_up(dir)
    } else {
        None
    }
}

/// Joins `rel` onto the directory `base`, as joining paths does on a system
/// whose separator is `/`.
pub fn join_path(base: &str, rel: &str) -> (path: String)
    ensures
        path@ == joined(base@, rel@),
{
    let base_len: usize = base.unicode_len();
    if rel.unicode_len() > 0 && rel.get_char(0) == '/' {
        String::from_str(rel)
    } else if base_len > 0 && base.get_char(base_len - 1) != '/' {
        proof {
            reveal_strlit("/");
        }
        assert("/"@ == seq!['/']);
        String::from_str(base).concat("/").concat(rel)
    } else {
        String::from_str(base).concat(rel)
    }
}

/// The parent of `path` from which a walk upward goes on. A walk
/// ends where the path has no parent; a parent that is no shorter than the
/// path ends it too.
pub fn parent_dir(path: &str) -> (parent: Option<String>)
    ensures
        path_view(parent) == step_up(path@),
{
    match path_parent(path) {
        Some(parent) => {
            if parent.as_str().unicode_len() < path.unicode_len() {
                Some(parent)
            } else {
                None
            }
        },
        None => None,
    }
}

/// Whether `dir` is `root` or lies below it, going by the text.
pub fn is_within_root(root: &str, dir: &str) -> (r: bool)
    ensures
        r == within_root(root@, dir@),
{
    let mut edge = chars_of(root);
    let place = chars_of(dir);
    if place.len() == edge.len() {
        let same = has_prefix(&place, &edge);
        assert(place@.take(place@.len() as int) == place@);
        return same;
    }
    edge.push('/');
    let inside = has_prefix(&place, &edge);
    assert(place@.len() == edge@.len() ==> place@.take(place@.len() as int) == place@);
    inside
}

/// The next directory on the way from `dir` up to `root`, if `dir` lies
/// below `root`.
pub fn parent_toward(root: &str, dir: &str) -> (parent: Option<String>)
    ensures
        path_view(parent) == step_toward(root@, dir@),
{
    let mut edge = chars_of(root);
    let place = chars_of(dir);
    edge.push('/');
    if place.len() > edge.len() && has_prefix(&place, &edge) {
        parent_dir(dir)
    } else {
        None
    }
}

} // verus!
