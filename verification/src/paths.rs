//! Paths, as texts with `/` between their segments, and the index that
//! finds the registered directory a path lies in.

use crate::text::{index_of, starts_with};
use vstd::prelude::*;

verus! {

/// Whether a path begins at the root: with `/`.
pub open spec fn is_absolute(path: Seq<char>) -> bool {
    path.len() > 0 && path[0] == '/'
}

/// A path as the key of a directory: with a `/` at its end.
pub open spec fn dir_key(path: Seq<char>) -> Seq<char> {
    if path.len() > 0 && path.last() == '/' {
        path
    } else {
        path.push('/')
    }
}

/// Whether a text is one plain segment of a path: not empty, without `/`,
/// and neither `.` nor `..`.
pub open spec fn is_plain_segment(segment: Seq<char>) -> bool {
    segment.len() > 0 && !segment.contains('/') && segment != "."@ && segment != ".."@
}

/// Whether a text is a plain relative path: plain segments with one `/`
/// between each two.
pub open spec fn is_plain_relative(path: Seq<char>) -> bool
    decreases path.len(),
{
    let k = index_of(path, '/');
    if 0 <= k < path.len() {
        is_plain_segment(path.take(k)) && is_plain_relative(path.skip(k + 1))
    } else {
        is_plain_segment(path)
    }
}

/// Whether a text is a plain absolute path: the root `/`, or `/` and a
/// plain relative path.
pub open spec fn is_plain_absolute(path: Seq<char>) -> bool {
    path == "/"@ || (is_absolute(path) && is_plain_relative(path.skip(1)))
}

/// Whether a text is a plain directory: a plain absolute path, or a plain
/// absolute path other than the root with a `/` at its end.
pub open spec fn is_plain_dir(path: Seq<char>) -> bool {
    is_plain_absolute(path) || (path.len() >= 3 && path.last() == '/' && is_plain_absolute(
        path.drop_last(),
    ))
}

/// Whether a text is a plain relative path or empty.
pub open spec fn is_plain_rest(rest: Seq<char>) -> bool {
    rest.len() == 0 || is_plain_relative(rest)
}

/// The path that lies below a directory by a rest: the directory itself
/// where the rest is empty, else the directory, a `/` unless it ends with one,
/// and the rest.
pub open spec fn under(base: Seq<char>, rest: Seq<char>) -> Seq<char> {
    if rest.len() == 0 {
        base
    } else {
        dir_key(base) + rest
    }
}

/// The normal form of a path, as `arca::Path::from` gives it.
pub uninterp spec fn resolved_path(path: Seq<char>) -> Seq<char>;

/// `base` joined with `other`, as `arca::Path::with_join` gives it.
pub uninterp spec fn joined_path(base: Seq<char>, other: Seq<char>) -> Seq<char>;

/// The way from `base` to `path`, as `arca::Path::relative_to` gives it.
pub uninterp spec fn relative_path(path: Seq<char>, base: Seq<char>) -> Seq<char>;

/// The directory that holds `path`, as `arca::Path::dirname` gives it.
pub uninterp spec fn parent_path(path: Seq<char>) -> Option<Seq<char>>;

/// The normal form of a path: a plain directory is its own normal form; the
/// normal form of any other path is what `arca` makes of it.
pub open spec fn normal_path(path: Seq<char>) -> Seq<char> {
    if is_plain_dir(path) {
        path
    } else {
        resolved_path(path)
    }
}

/// A directory joined with a path: a plain directory joined with a plain
/// rest is the path that lies below the directory by the rest; any other join
/// is what `arca` makes of it.
pub open spec fn joined(base: Seq<char>, other: Seq<char>) -> Seq<char> {
    if is_plain_dir(base) && is_plain_rest(other) {
        under(base, other)
    } else {
        joined_path(base, other)
    }
}

/// Whether `path` lies below the plain directory `dir`, whose key is
/// `base`, by the plain rest `rest`.
pub open spec fn lies_under(path: Seq<char>, base: Seq<char>, dir: Seq<char>, rest: Seq<char>)
    -> bool {
    is_plain_dir(dir) && is_plain_rest(rest) && base == dir_key(dir) && path == under(
        dir,
        rest,
    )
}

/// The way from a directory to a path: from the key of a plain directory to
/// a path that lies below it by a plain rest, the way is that rest; any other
/// way is what `arca` makes of it.
pub open spec fn relative(path: Seq<char>, base: Seq<char>) -> Seq<char> {
    if exists|dir: Seq<char>, rest: Seq<char>| lies_under(path, base, dir, rest) {
        let (dir, rest) = choose|dir: Seq<char>, rest: Seq<char>|
            lies_under(path, base, dir, rest);
        rest
    } else {
        relative_path(path, base)
    }
}

/// Trusted: `arca::Path::from` computes the normal form of a path from its
/// text alone; `resolved_path` names it. It cuts the text at each `/`, drops
/// empty segments and `.`, resolves `..` against the segment before it, and
/// joins what is left with `/`, keeping a `/` at the end of the text. So a
/// plain directory comes back as it is. A text that begins with `/` keeps that
/// first `/`, since the empty first segment is never removed, and what is
/// made of it is a plain directory: only plain segments are left behind that
/// first `/`.
#[verifier::external_body]
pub(crate) fn normalize(path: &str) -> (out: String)
    ensures
        out@ == resolved_path(path@),
        out@ == normal_path(path@),
        is_absolute(path@) ==> is_absolute(out@),
        is_absolute(path@) ==> is_plain_dir(out@),
{
    arca::Path::from(path).to_string()
}

/// Trusted: `arca::Path::with_join`, on the paths that `arca::Path::from`
/// makes of the two texts, is a function of the two texts alone;
/// `joined_path` names its result. An empty path joined to a directory gives
/// the directory. A relative path joined to a directory gives the directory,
/// a `/` unless the directory ends with one, and the path, in normal form: for
/// a plain directory and a plain relative path that is the text so made.
#[verifier::external_body]
pub(crate) fn join(base: &str, other: &str) -> (out: String)
    ensures
        out@ == joined_path(base@, other@),
        out@ == joined(base@, other@),
{
    arca::Path::from(base).with_join(&arca::Path::from(other)).to_string()
}

/// Trusted: `arca::Path::relative_to`, on the paths that `arca::Path::from`
/// makes of the two texts, is a function of the two texts alone;
/// `relative_path` names its result. It drops the segments that the two paths
/// begin with in common, climbs with `..` out of what is left of the base, and
/// descends along what is left of the path. So from a plain directory,
/// written with a `/` at its end, to a path that lies below it by a plain
/// rest, the way is that rest, and it is empty to the directory itself.
/// It panics unless the normal forms of both paths are absolute; those of
/// texts that begin with `/` are, which is what `requires` asks for.
#[verifier::external_body]
pub(crate) fn relative_to(path: &str, base: &str) -> (out: String)
    requires
        is_absolute(path@),
        is_absolute(base@),
    ensures
        out@ == relative_path(path@, base@),
        out@ == relative(path@, base@),
{
    arca::Path::from(path).relative_to(&arca::Path::from(base)).to_string()
}

/// Trusted: `arca::Path::dirname`, on the path that `arca::Path::from` makes
/// of the text, is a function of the text alone; `parent_path` names its
/// result.
#[verifier::external_body]
pub(crate) fn dirname(path: &str) -> (out: Option<String>)
    ensures
        out is Some == parent_path(path@) is Some,
        out is Some ==> out->0@ == parent_path(path@)->0,
{
    arca::Path::from(path).dirname().map(|p| p.to_string())
}

/// The index of directories of `arca`, taken as it is: what it holds is
/// known through `trie_entries` alone.
#[verifier::external_type_specification]
#[verifier::external_body]
#[verifier::reject_recursive_types(T)]
pub struct ExTrie<T>(arca::Trie<T>);

/// What an index of directories holds: for the key of each directory, the
/// name that was registered with it.
pub uninterp spec fn trie_entries(trie: arca::Trie<String>) -> Map<Seq<char>, Seq<char>>;

/// Whether `key` is the longest key of `entries` that `query` begins with.
pub open spec fn is_longest_prefix(
    entries: Map<Seq<char>, Seq<char>>,
    query: Seq<char>,
    key: Seq<char>,
) -> bool {
    &&& entries.dom().contains(key)
    &&& starts_with(query, key)
    &&& forall|other: Seq<char>| #[trigger]
        entries.dom().contains(other) && starts_with(query, other) ==> other.len() <= key.len()
}

/// Whether `query` begins with no key of `entries`.
pub open spec fn has_no_prefix(entries: Map<Seq<char>, Seq<char>>, query: Seq<char>) -> bool {
    forall|other: Seq<char>| #[trigger] entries.dom().contains(other) ==> !starts_with(query, other)
}

/// An index that holds nothing.
pub open spec fn no_entries() -> Map<Seq<char>, Seq<char>> {
    Map::empty()
}

/// Trusted: `arca::Trie::default` is an index that holds nothing.
#[verifier::external_body]
pub(crate) fn trie_new() -> (out: arca::Trie<String>)
    ensures
        trie_entries(out) == no_entries(),
{
    arca::Trie::default()
}

/// Trusted: `arca::Trie::insert` files the value under the key of the path:
/// its normal form with a `/` at its end. What was filed under that key
/// before is replaced; every other entry stays.
#[verifier::external_body]
pub(crate) fn trie_insert(trie: &mut arca::Trie<String>, path: &str, name: String)
    ensures
        trie_entries(*final(trie)) == trie_entries(*old(trie)).insert(
            dir_key(normal_path(path@)),
            name@,
        ),
{
    trie.insert(arca::Path::from(path), name)
}

/// Trusted: `arca::Trie::get_ancestor_record` looks up the key of the path,
/// its normal form with a `/` at its end, and returns the entry whose key is
/// the longest one that this key begins with, or nothing where it begins with
/// no key of the index. The entry comes back as its key and its value.
#[verifier::external_body]
pub(crate) fn trie_ancestor(trie: &arca::Trie<String>, path: &str) -> (out: Option<(String, String)>)
    ensures
        match out {
            Some(found) => is_longest_prefix(
                trie_entries(*trie),
                dir_key(normal_path(path@)),
                found.0@,
            ) && trie_entries(*trie)[found.0@] == found.1@,
            None => has_no_prefix(trie_entries(*trie), dir_key(normal_path(path@))),
        },
{
    trie.get_ancestor_record(&arca::Path::from(path)).map(|r| (r.0.clone(), r.2.clone()))
}

} // verus!
