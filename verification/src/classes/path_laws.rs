//! Laws of the project registry: from a path to its locator and back.

use crate::classes::project::{
    is_qualified, lemma_longest_prefix_unique, locator_of_path, longest_prefix, physical_of,
    qualified_namespace, qualified_of, qualified_rest, Project,
};
use crate::paths::{
    dir_key, is_absolute, is_longest_prefix, is_plain_absolute, is_plain_dir, is_plain_relative,
    is_plain_rest, joined, lies_under, normal_path, relative, under,
};
use crate::text::{
    index_of, is_char, is_either, lemma_index_where, lemma_index_where_unique, starts_with,
};
use crate::types::{locator_of, physical_path_spec, KeyValue, ModuleLocatorKind};
use crate::utils::sorted_params;
use vstd::prelude::*;

verus! {

/// Whether a text can be the name of a namespace: not empty, and without
/// `/` and `?`.
pub open spec fn is_namespace(name: Seq<char>) -> bool {
    name.len() > 0 && !name.contains('/') && !name.contains('?')
}

/// A plain relative path is not empty and neither begins nor ends with
/// `/`.
pub proof fn lemma_plain_relative_shape(path: Seq<char>)
    requires
        is_plain_relative(path),
    ensures
        path.len() > 0,
        path[0] != '/',
        path.last() != '/',
    decreases path.len(),
{
    lemma_index_where(path, is_char('/'));
    let k = index_of(path, '/');
    if 0 <= k < path.len() {
        let head = path.take(k);
        let tail = path.skip(k + 1);
        lemma_plain_relative_shape(tail);
        assert(head.len() > 0);
        assert(path[0] == head[0]);
        assert(head.contains(head[0]));
        assert(path.last() == tail.last());
    } else {
        assert(path.contains(path[0]));
        assert(path.contains(path.last()));
    }
}

/// Two plain relative paths with a `/` between them are a plain relative
/// path.
pub proof fn lemma_plain_relative_concat(first: Seq<char>, second: Seq<char>)
    requires
        is_plain_relative(first),
        is_plain_relative(second),
    ensures
        is_plain_relative(first + seq!['/'] + second),
    decreases first.len(),
{
    let whole = first + seq!['/'] + second;
    lemma_index_where(first, is_char('/'));
    let k = index_of(first, '/');
    assert forall|j: int| 0 <= j < k implies !is_char('/')(#[trigger] whole[j]) by {
        assert(whole[j] == first[j]);
    }
    if 0 <= k < first.len() {
        assert(whole[k] == first[k]);
        lemma_index_where_unique(whole, is_char('/'), k);
        assert(whole.take(k) =~= first.take(k));
        assert(whole.skip(k + 1) =~= first.skip(k + 1) + seq!['/'] + second);
        lemma_plain_relative_concat(first.skip(k + 1), second);
    } else {
        assert(whole[k] == '/');
        lemma_index_where_unique(whole, is_char('/'), k);
        assert(whole.take(k) =~= first);
        assert(whole.skip(k + 1) =~= second);
    }
}

/// What follows a `/` in a plain relative path is a plain relative path.
pub proof fn lemma_plain_relative_suffix(path: Seq<char>, at: int)
    requires
        is_plain_relative(path),
        0 <= at < path.len(),
        path[at] == '/',
    ensures
        is_plain_relative(path.skip(at + 1)),
    decreases path.len(),
{
    lemma_index_where(path, is_char('/'));
    let k = index_of(path, '/');
    assert(k <= at) by {
        if at < k {
            assert(!is_char('/')(path[at]));
        }
    }
    assert(is_char('/')(path[at]));
    if k < at {
        let tail = path.skip(k + 1);
        assert(tail[at - k - 1] == path[at]);
        lemma_plain_relative_suffix(tail, at - k - 1);
        assert(tail.skip(at - k - 1 + 1) =~= path.skip(at + 1));
    }
}

/// The key of a plain directory is `/`, or `/`, a plain relative path and
/// `/`. The directory is its key, or its key without the `/` at its end.
pub proof fn lemma_dir_key_shape(dir: Seq<char>)
    requires
        is_plain_dir(dir),
    ensures
        is_absolute(dir),
        is_absolute(dir_key(dir)),
        dir_key(dir).last() == '/',
        dir_key(dir).len() == 1 || (dir_key(dir).len() >= 3 && is_plain_relative(
            dir_key(dir).subrange(1, dir_key(dir).len() - 1),
        )),
        dir == dir_key(dir) || dir == dir_key(dir).drop_last(),
        is_plain_absolute(dir) && dir.len() > 1 ==> dir_key(dir) == dir.push('/'),
{
    reveal_strlit("/");
    let key = dir_key(dir);
    if dir == "/"@ {
        assert(key =~= dir);
    } else if is_plain_absolute(dir) {
        let inner = dir.skip(1);
        lemma_plain_relative_shape(inner);
        assert(dir.last() == inner.last());
        assert(key =~= dir.push('/'));
        assert(key.subrange(1, key.len() - 1) =~= inner);
        assert(dir =~= key.drop_last());
    } else {
        let shorter = dir.drop_last();
        assert(shorter.len() >= 2);
        let inner = shorter.skip(1);
        lemma_plain_relative_shape(inner);
        assert(key =~= dir);
        assert(key.subrange(1, key.len() - 1) =~= inner);
    }
}

/// The path that lies below a plain directory by a plain rest is a plain
/// directory, and a plain absolute path where the rest is not empty.
pub proof fn lemma_under_is_plain(base: Seq<char>, rest: Seq<char>)
    requires
        is_plain_dir(base),
        is_plain_rest(rest),
    ensures
        is_plain_dir(under(base, rest)),
        rest.len() > 0 ==> is_plain_absolute(under(base, rest)),
{
    reveal_strlit("/");
    if rest.len() > 0 {
        let path = under(base, rest);
        let key = dir_key(base);
        lemma_dir_key_shape(base);
        if key.len() == 1 {
            assert(path =~= seq!['/'] + rest);
            assert(path.skip(1) =~= rest);
        } else {
            let inner = key.subrange(1, key.len() - 1);
            assert(key =~= seq!['/'] + inner + seq!['/']);
            assert(path.skip(1) =~= inner + seq!['/'] + rest);
            lemma_plain_relative_concat(inner, rest);
        }
    }
}

/// A plain directory whose key begins with the key of another lies below
/// that other by a plain rest, which is the end of the path, where it is
/// written without a `/` at its end or is that other directory itself.
pub proof fn lemma_lies_under(path: Seq<char>, dir: Seq<char>) -> (rest: Seq<char>)
    requires
        is_plain_dir(path),
        is_plain_dir(dir),
        starts_with(dir_key(path), dir_key(dir)),
        dir_key(path) == dir_key(dir) ==> path == dir,
        dir_key(path) != dir_key(dir) ==> is_plain_absolute(path),
    ensures
        lies_under(path, dir_key(dir), dir, rest),
{
    reveal_strlit("/");
    let key = dir_key(dir);
    let query = dir_key(path);
    lemma_dir_key_shape(dir);
    lemma_dir_key_shape(path);
    let n = key.len() as int;
    assert(query.take(n) == key);
    if n == query.len() {
        assert(query.take(n) =~= query);
        Seq::<char>::empty()
    } else {
        assert(path.len() > 1) by {
            if path == "/"@ {
                assert(query =~= path);
            }
        }
        let rel = path.skip(1);
        lemma_plain_relative_shape(rel);
        assert(path.last() == rel.last());
        assert(query =~= path.push('/'));
        assert(query[n - 1] == key[n - 1]);
        assert(n < path.len()) by {
            if n == path.len() {
                assert(path[n - 1] == query[n - 1]);
            }
        }
        assert(path.take(n) =~= key) by {
            assert(query.take(n) =~= path.take(n));
        }
        let rest = path.skip(n);
        if n == 1 {
            assert(rest =~= rel);
        } else {
            assert(path[n - 1] == query[n - 1]);
            assert(rel[n - 2] == path[n - 1]);
            lemma_plain_relative_suffix(rel, n - 2);
            assert(rel.skip(n - 2 + 1) =~= rest);
        }
        assert(path =~= key + rest);
        rest
    }
}

/// A path lies below the directories of a key by one rest at most.
pub proof fn lemma_lies_under_once(
    path: Seq<char>,
    base: Seq<char>,
    dir1: Seq<char>,
    rest1: Seq<char>,
    dir2: Seq<char>,
    rest2: Seq<char>,
)
    requires
        lies_under(path, base, dir1, rest1),
        lies_under(path, base, dir2, rest2),
    ensures
        rest1 == rest2,
{
    lemma_dir_key_shape(dir1);
    lemma_dir_key_shape(dir2);
    if rest1.len() > 0 && rest2.len() > 0 {
        assert(rest1 =~= path.skip(base.len() as int));
        assert(rest2 =~= path.skip(base.len() as int));
    } else if rest1.len() > 0 {
        assert(path.len() == base.len() + rest1.len());
        assert(path.len() == dir2.len());
    } else if rest2.len() > 0 {
        assert(path.len() == base.len() + rest2.len());
        assert(path.len() == dir1.len());
    } else {
        assert(rest1 =~= rest2);
    }
}

spec fn longest_len(entries: Map<Seq<char>, Seq<char>>, query: Seq<char>, n: nat) -> int
    decreases n,
{
    if entries.dom().contains(query.take(n as int)) {
        n as int
    } else if n == 0 {
        -1
    } else {
        longest_len(entries, query, (n - 1) as nat)
    }
}

proof fn lemma_longest_len(entries: Map<Seq<char>, Seq<char>>, query: Seq<char>, n: nat)
    requires
        n <= query.len(),
    ensures
        longest_len(entries, query, n) <= n,
        longest_len(entries, query, n) >= 0 ==> entries.dom().contains(
            query.take(longest_len(entries, query, n)),
        ),
        forall|m: int|
            longest_len(entries, query, n) < m <= n && 0 <= m ==> !entries.dom().contains(
                #[trigger] query.take(m),
            ),
    decreases n,
{
    if !entries.dom().contains(query.take(n as int)) && n > 0 {
        lemma_longest_len(entries, query, (n - 1) as nat);
    }
}

/// A text that begins with a key of an index begins with a longest one.
pub proof fn lemma_longest_prefix_exists(
    entries: Map<Seq<char>, Seq<char>>,
    query: Seq<char>,
    key: Seq<char>,
)
    requires
        entries.dom().contains(key),
        starts_with(query, key),
    ensures
        longest_prefix(entries, query) is Some,
        is_longest_prefix(entries, query, longest_prefix(entries, query)->0),
{
    let n = query.len();
    lemma_longest_len(entries, query, n);
    let best = longest_len(entries, query, n);
    assert(best >= key.len()) by {
        if best < key.len() {
            assert(query.take(key.len() as int) == key);
        }
    }
    let found = query.take(best);
    assert(starts_with(query, found)) by {
        assert(query.take(found.len() as int) =~= found);
    }
    assert forall|other: Seq<char>| #[trigger]
        entries.dom().contains(other) && starts_with(query, other) implies other.len()
        <= found.len() by {
        if other.len() > found.len() {
            assert(query.take(other.len() as int) == other);
        }
    }
    assert(is_longest_prefix(entries, query, found));
}

impl Project {
    /// Whether the index of directories agrees with the namespaces: every
    /// directory of the index belongs to a namespace with a name that can be
    /// one, and is the directory, a plain one, that this namespace stands
    /// for.
    pub open spec fn is_consistent(&self) -> bool {
        forall|key: Seq<char>| #[trigger]
            self.entries().dom().contains(key) ==> {
                let ns = self.entries()[key];
                &&& is_namespace(ns)
                &&& self.roots().dom().contains(ns)
                &&& is_plain_dir(self.roots()[ns])
                &&& dir_key(self.roots()[ns]) == key
            }
    }

    /// Whether registering a namespace keeps the index in agreement with
    /// the namespaces: the index agrees with them, and the name can be that of
    /// a namespace and is not registered yet.
    pub open spec fn admits(&self, ns: Seq<char>) -> bool {
        &&& self.is_consistent()
        &&& is_namespace(ns)
        &&& !self.roots().dom().contains(ns)
    }

    /// Whether a namespace is registered, for a plain directory that the
    /// index holds.
    pub open spec fn is_registered(&self, ns: Seq<char>) -> bool {
        &&& self.roots().dom().contains(ns)
        &&& is_plain_dir(self.roots()[ns])
        &&& self.entries().dom().contains(dir_key(self.roots()[ns]))
    }

    /// Whether a path, if it is a directory of the index, is written as that
    /// directory was registered: with a `/` at its end, or without one.
    pub open spec fn is_written_as_registered(&self, path: Seq<char>) -> bool {
        self.entries().dom().contains(dir_key(path)) ==> self.roots()[self.entries()[dir_key(
            path,
        )]] == path
    }
}

/// The path that lies below the directory of a registered namespace by a
/// plain sub-path has a file locator, and the path of that locator's file is
/// the path itself. This holds of a project whose index agrees with its
/// namespaces, as it does after `new` and after each `register_ns` of a new
/// name that can be that of a namespace, and of a path that is no directory of the index or is written as that
/// directory was registered. (The locator may be one of another namespace,
/// whose directory lies deeper.)
pub proof fn lemma_path_round_trip(project: Project, ns: Seq<char>, sub: Seq<char>)
    requires
        project.is_consistent(),
        project.is_registered(ns),
        is_plain_rest(sub),
        project.is_written_as_registered(under(project.roots()[ns], sub)),
    ensures
        locator_of_path(
            project.entries(),
            under(project.roots()[ns], sub),
            Seq::empty(),
        ) is Some,
        physical_path_spec(
            project.roots(),
            locator_of_path(
                project.entries(),
                under(project.roots()[ns], sub),
                Seq::empty(),
            )->0,
        ) == Some(under(project.roots()[ns], sub)),
{
    reveal_strlit("/");
    let entries = project.entries();
    let roots = project.roots();
    let root = roots[ns];
    let path = under(root, sub);
    lemma_under_is_plain(root, sub);
    lemma_dir_key_shape(root);
    lemma_dir_key_shape(path);
    assert(normal_path(path) == path);
    let query = dir_key(path);
    let own = dir_key(root);
    assert(starts_with(query, own)) by {
        if sub.len() > 0 {
            lemma_plain_relative_shape(sub);
            assert(path =~= own + sub);
            assert(path.last() == sub.last());
            assert(query =~= own + sub + seq!['/']);
        }
        assert(query.take(own.len() as int) =~= own);
    }
    lemma_longest_prefix_exists(entries, query, own);
    let key = longest_prefix(entries, query)->0;
    let name = entries[key];
    let dir = roots[name];
    assert(entries.dom().contains(key));
    assert(is_namespace(name) && is_plain_dir(dir) && dir_key(dir) == key);
    assert(query.take(key.len() as int) == key);
    if key != query && sub.len() == 0 {
        assert(own.len() <= key.len());
        assert(query.take(key.len() as int) =~= query);
    }
    let rest = lemma_lies_under(path, dir);
    assert(relative(normal_path(path), key) == rest) by {
        let (d, r) = choose|d: Seq<char>, r: Seq<char>| lies_under(path, key, d, r);
        lemma_lies_under_once(path, key, dir, rest, d, r);
    }
    let specifier = name + seq!['/'] + rest;
    assert(qualified_of(entries, path) == Some(specifier));
    let seps = is_either('/', '?');
    let k = name.len() as int;
    assert forall|j: int| 0 <= j < k implies !seps(#[trigger] specifier[j]) by {
        assert(specifier[j] == name[j]);
        assert(name.contains(name[j]));
    }
    assert(specifier[k] == '/');
    lemma_index_where_unique(specifier, seps, k);
    assert(qualified_namespace(specifier) =~= name);
    assert(qualified_rest(specifier) =~= rest);
    assert(is_qualified(specifier));
    assert(joined(dir, rest) == path);
    assert(physical_of(roots, specifier) == Some(path));
    assert(sorted_params(Seq::<KeyValue>::empty()) =~= Seq::empty());
}

/// The path that lies below the directory of a registered namespace by a
/// plain sub-path has the file locator of that namespace, a `/` and the
/// sub-path, without parameters, where the directory belongs to the namespace
/// and no registered directory that holds the path lies deeper.
pub proof fn lemma_locator_of_sub_path(project: Project, ns: Seq<char>, sub: Seq<char>)
    requires
        project.is_consistent(),
        project.is_registered(ns),
        is_plain_rest(sub),
        project.entries()[dir_key(project.roots()[ns])] == ns,
        forall|other: Seq<char>| #[trigger]
            project.entries().dom().contains(other) && starts_with(
                dir_key(under(project.roots()[ns], sub)),
                other,
            ) ==> other.len() <= dir_key(project.roots()[ns]).len(),
    ensures
        locator_of_path(
            project.entries(),
            under(project.roots()[ns], sub),
            Seq::empty(),
        ) == Some(locator_of(ModuleLocatorKind::File, ns + seq!['/'] + sub, Seq::empty())),
{
    reveal_strlit("/");
    let entries = project.entries();
    let root = project.roots()[ns];
    let path = under(root, sub);
    lemma_under_is_plain(root, sub);
    lemma_dir_key_shape(root);
    lemma_dir_key_shape(path);
    let query = dir_key(path);
    let own = dir_key(root);
    assert(starts_with(query, own)) by {
        if sub.len() > 0 {
            lemma_plain_relative_shape(sub);
            assert(path =~= own + sub);
            assert(path.last() == sub.last());
            assert(query =~= own + sub + seq!['/']);
        }
        assert(query.take(own.len() as int) =~= own);
    }
    assert(is_longest_prefix(entries, query, own));
    lemma_longest_prefix_exists(entries, query, own);
    lemma_longest_prefix_unique(entries, query, own, longest_prefix(entries, query)->0);
    assert(lies_under(path, own, root, sub));
    assert(relative(normal_path(path), own) == sub) by {
        let (d, r) = choose|d: Seq<char>, r: Seq<char>| lies_under(path, own, d, r);
        lemma_lies_under_once(path, own, root, sub, d, r);
    }
    assert(is_absolute(path));
    assert(qualified_of(entries, path) == Some(ns + seq!['/'] + sub));
    assert(sorted_params(Seq::<KeyValue>::empty()) =~= Seq::empty());
}

} // verus!
