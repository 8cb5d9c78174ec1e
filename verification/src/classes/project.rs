//! The project registry: namespaces and their directories, and the hooks.

use crate::classes::path_laws::is_namespace;
use crate::paths::{
    is_plain_dir, dir_key, is_absolute, is_longest_prefix, join, joined, no_entries,
    normalize, relative, relative_to, normal_path, trie_ancestor, trie_entries, trie_insert,
    trie_new,
};
use crate::pattern::{pattern_matches, regex_match};
use crate::text::{
    begins_with, chars_of, find_char, find_either, index_where, is_char, is_either,
    lemma_index_where, push_text, same, slice_chars, starts_with, string_of,
};
use crate::types::{
    from_url_spec, locator_of, params_view, KeyValue, LocatorView, ModuleLocator,
    ModuleLocatorKind, PluginHook, StringKeyValue,
};
use crate::utils::{parse_query, parse_query_spec, sorted_params, split_query, split_query_spec};
use vstd::prelude::*;

verus! {

/// A namespace: a short name for a directory.
#[derive(Debug, PartialEq, Eq)]
pub struct Namespace {
    pub name: String,
    /// The directory, in normal form.
    pub root: String,
}

/// The directory of each namespace of a list. A later entry of a name
/// replaces an earlier one.
pub open spec fn roots_of(namespaces: Seq<Namespace>) -> Map<Seq<char>, Seq<char>>
    decreases namespaces.len(),
{
    if namespaces.len() == 0 {
        Map::empty()
    } else {
        roots_of(namespaces.drop_last()).insert(namespaces.last().name@, namespaces.last().root@)
    }
}

/// The key of an index that `query` begins with and that is the longest
/// such key, if `query` begins with a key at all.
pub open spec fn longest_prefix(entries: Map<Seq<char>, Seq<char>>, query: Seq<char>) -> Option<
    Seq<char>,
> {
    if exists|key: Seq<char>| is_longest_prefix(entries, query, key) {
        Some(choose|key: Seq<char>| is_longest_prefix(entries, query, key))
    } else {
        None
    }
}

/// There is one longest key at most.
pub proof fn lemma_longest_prefix_unique(
    entries: Map<Seq<char>, Seq<char>>,
    query: Seq<char>,
    first: Seq<char>,
    second: Seq<char>,
)
    requires
        is_longest_prefix(entries, query, first),
        is_longest_prefix(entries, query, second),
    ensures
        first == second,
{
    assert(first.len() == second.len());
    assert(first =~= query.take(first.len() as int));
    assert(second =~= query.take(second.len() as int));
}

/// The namespace-qualified form of a path: the name registered for the
/// longest registered directory that holds the path, a `/`, and the way from
/// that directory to the normal form of the path. A path that no registered directory holds, or
/// whose normal form is not absolute, has none.
pub open spec fn qualified_of(entries: Map<Seq<char>, Seq<char>>, path: Seq<char>) -> Option<
    Seq<char>,
> {
    match longest_prefix(entries, dir_key(normal_path(path))) {
        Some(key) => if is_absolute(normal_path(path)) {
            Some(entries[key] + seq!['/'] + relative(normal_path(path), key))
        } else {
            None
        },
        None => None,
    }
}

/// Whether a text has the shape of a namespace-qualified path: a name of
/// one or more characters other than `/` and `?`, and a `/`; what follows is
/// the rest.
pub open spec fn is_qualified(s: Seq<char>) -> bool {
    let k = index_where(s, is_either('/', '?'));
    1 <= k < s.len() && s[k] == '/'
}

/// The namespace of a namespace-qualified path.
pub open spec fn qualified_namespace(s: Seq<char>) -> Seq<char> {
    s.take(index_where(s, is_either('/', '?')))
}

/// What follows the namespace and its `/` in a namespace-qualified path.
pub open spec fn qualified_rest(s: Seq<char>) -> Seq<char> {
    s.skip(index_where(s, is_either('/', '?')) + 1)
}

/// The path that a namespace-qualified path stands for: the directory of
/// its namespace joined with its rest. A text of another shape, or with a
/// namespace that is not registered, stands for none.
pub open spec fn physical_of(roots: Map<Seq<char>, Seq<char>>, s: Seq<char>) -> Option<
    Seq<char>,
> {
    if is_qualified(s) && roots.dom().contains(qualified_namespace(s)) {
        Some(joined(roots[qualified_namespace(s)], qualified_rest(s)))
    } else {
        None
    }
}

/// The file locator of a path, with the given parameters sorted; none where
/// the path has no namespace-qualified form.
pub open spec fn locator_of_path(
    entries: Map<Seq<char>, Seq<char>>,
    path: Seq<char>,
    params: Seq<KeyValue>,
) -> Option<LocatorView> {
    match qualified_of(entries, path) {
        Some(specifier) => Some(
            locator_of(ModuleLocatorKind::File, specifier, sorted_params(params)),
        ),
        None => None,
    }
}

/// The locator that a specifier names by itself. A text that begins with
/// the dev prefix or holds a `:` is read as a URL. Another text that begins
/// with `/` is a path, with a query behind its first `?`. Any other text
/// names no locator.
pub open spec fn locator_spec(entries: Map<Seq<char>, Seq<char>>, s: Seq<char>) -> Option<
    LocatorView,
> {
    if starts_with(s, "/_dev/"@) || s.contains(':') {
        from_url_spec(s)
    } else if starts_with(s, seq!['/']) {
        locator_of_path(
            entries,
            split_query_spec(s).0,
            match split_query_spec(s).1 {
                Some(query) => parse_query_spec(query),
                None => Seq::empty(),
            },
        )
    } else {
        None
    }
}

/// The project: its root, its namespaces, and its hooks.
#[derive(Debug)]
pub struct Project {
    pub root: String,
    pub on_resolve: Vec<PluginHook>,
    pub on_fetch: Vec<PluginHook>,
    pub(crate) ns_to_path: Vec<Namespace>,
    pub(crate) path_to_ns: arca::Trie<String>,
}

impl Project {
    /// The directory of each registered namespace.
    pub closed spec fn roots(&self) -> Map<Seq<char>, Seq<char>> {
        roots_of(self.ns_to_path@)
    }

    /// The namespace of each registered directory, by the directory's key.
    pub closed spec fn entries(&self) -> Map<Seq<char>, Seq<char>> {
        trie_entries(self.path_to_ns)
    }

    /// The root directory.
    pub closed spec fn root_text(&self) -> Seq<char> {
        self.root@
    }

    /// The hooks that are offered each request to resolve.
    pub closed spec fn resolve_hooks(&self) -> Seq<PluginHook> {
        self.on_resolve@
    }

    /// The hooks that are offered each request to fetch.
    pub closed spec fn fetch_hooks(&self) -> Seq<PluginHook> {
        self.on_fetch@
    }

    /// Whether every registered directory is absolute.
    pub closed spec fn wf(&self) -> bool {
        forall|key: Seq<char>| #[trigger] self.entries().dom().contains(key) ==> is_absolute(key)
    }

    /// The project of a root directory. The namespace `app` stands for the
    /// root.
    pub fn new(root: &str) -> (out: Self)
        requires
            is_absolute(root@),
        ensures
            out.wf(),
            out.root_text() == normal_path(root@),
            out.roots() == roots_of(Seq::empty()).insert("app"@, normal_path(root@)),
            out.entries() == no_entries().insert(dir_key(normal_path(root@)), "app"@),
            out.resolve_hooks().len() == 0,
            out.fetch_hooks().len() == 0,
            out.is_consistent(),
            out.is_registered("app"@),
    {
        let mut project = Project {
            root: normalize(root),
            on_resolve: Vec::new(),
            on_fetch: Vec::new(),
            ns_to_path: Vec::new(),
            path_to_ns: trie_new(),
        };
        assert(project.ns_to_path@ =~= Seq::empty());
        proof {
            reveal_strlit("app");
            assert(!"app"@.contains('/') && !"app"@.contains('?'));
        }
        project.register_ns("app", root);
        project
    }

    /// Registers a namespace for a directory. A namespace that was
    /// registered before now stands for this directory; a directory that was
    /// registered before now belongs to this namespace.
    pub fn register_ns(&mut self, ns: &str, p: &str)
        requires
            old(self).wf(),
            is_absolute(p@),
        ensures
            final(self).wf(),
            final(self).roots() == old(self).roots().insert(ns@, normal_path(p@)),
            final(self).entries() == old(self).entries().insert(
                dir_key(normal_path(p@)),
                ns@,
            ),
            final(self).root_text() == old(self).root_text(),
            final(self).resolve_hooks() == old(self).resolve_hooks(),
            final(self).fetch_hooks() == old(self).fetch_hooks(),
            old(self).admits(ns@) ==> final(self).is_consistent() && final(self).is_registered(ns@),
            old(self).admits(ns@) ==> forall|other: Seq<char>| #[trigger]
                old(self).is_registered(other) ==> final(self).is_registered(other),
    {
        let root = normalize(p);
        let entry = Namespace { name: ns.to_owned(), root };
        proof {
            let now = self.ns_to_path@.push(entry);
            assert(now.drop_last() =~= self.ns_to_path@);
        }
        self.ns_to_path.push(entry);
        trie_insert(&mut self.path_to_ns, p, ns.to_owned());
        proof {
            let key = dir_key(normal_path(p@));
            assert(is_absolute(normal_path(p@)));
            assert(key[0] == normal_path(p@)[0]);
            assert forall|other: Seq<char>| #[trigger]
                self.entries().dom().contains(other) implies is_absolute(other) by {
                if other != key {
                    assert(old(self).entries().dom().contains(other));
                }
            }
            if old(self).admits(ns@) {
                assert forall|other: Seq<char>| #[trigger]
                    self.entries().dom().contains(other) implies {
                    let name = self.entries()[other];
                    &&& is_namespace(name)
                    &&& self.roots().dom().contains(name)
                    &&& is_plain_dir(self.roots()[name])
                    &&& dir_key(self.roots()[name]) == other
                } by {
                    if other != key {
                        assert(old(self).entries().dom().contains(other));
                    }
                }
            }
        }
    }

    /// The directory of a namespace, if the namespace is registered.
    pub fn root_ns(&self, ns: &str) -> (out: Option<String>)
        ensures
            out is Some == self.roots().dom().contains(ns@),
            out is Some ==> out->0@ == self.roots()[ns@],
    {
        let mut n: usize = self.ns_to_path.len();
        assert(self.ns_to_path@.take(n as int) =~= self.ns_to_path@);
        while n > 0
            invariant
                n <= self.ns_to_path.len(),
                roots_of(self.ns_to_path@).dom().contains(ns@) == roots_of(
                    self.ns_to_path@.take(n as int),
                ).dom().contains(ns@),
                roots_of(self.ns_to_path@).dom().contains(ns@) ==> roots_of(self.ns_to_path@)[ns@]
                    == roots_of(self.ns_to_path@.take(n as int))[ns@],
            decreases n,
        {
            let entry = &self.ns_to_path[n - 1];
            assert(self.ns_to_path@.take(n as int).last() == *entry);
            assert(self.ns_to_path@.take(n as int).drop_last() =~= self.ns_to_path@.take(n - 1));
            if same(entry.name.as_str(), ns) {
                return Some(entry.root.clone());
            }
            n -= 1;
        }
        None
    }

    /// The namespace-qualified form of a path.
    pub fn ns_qualified_from_path(&self, p: &str) -> (out: Option<String>)
        requires
            self.wf(),
        ensures
            out is Some == qualified_of(self.entries(), p@) is Some,
            out is Some ==> out->0@ == qualified_of(self.entries(), p@)->0,
    {
        let ghost query = dir_key(normal_path(p@));
        match trie_ancestor(&self.path_to_ns, p) {
            Some(found) => {
                let key = found.0;
                let ns = found.1;
                proof {
                    let chosen = longest_prefix(self.entries(), query)->0;
                    lemma_longest_prefix_unique(self.entries(), query, key@, chosen);
                }
                let normal = normalize(p);
                let normal_chars = chars_of(normal.as_str());
                if normal_chars.len() == 0 || normal_chars[0] != '/' {
                    return None;
                }
                let rel = relative_to(normal.as_str(), key.as_str());
                let mut buf = chars_of(ns.as_str());
                buf.push('/');
                push_text(&mut buf, rel.as_str());
                Some(string_of(&buf))
            },
            None => {
                proof {
                    if exists|key: Seq<char>| is_longest_prefix(self.entries(), query, key) {
                        let key = choose|key: Seq<char>|
                            is_longest_prefix(self.entries(), query, key);
                        assert(self.entries().dom().contains(key));
                    }
                }
                None
            },
        }
    }

    /// The file locator of a path, with the given parameters.
    pub fn locator_from_path(&self, p: &str, params: &Vec<StringKeyValue>) -> (out: Option<
        ModuleLocator,
    >)
        requires
            self.wf(),
        ensures
            out is Some == locator_of_path(self.entries(), p@, params_view(params@)) is Some,
            out is Some ==> out->0@ == locator_of_path(
                self.entries(),
                p@,
                params_view(params@),
            )->0,
            out is Some ==> out->0.wf(),
    {
        match self.ns_qualified_from_path(p) {
            Some(specifier) => {
                let copy = crate::types::clone_params(params);
                Some(ModuleLocator::new(ModuleLocatorKind::File, specifier, copy))
            },
            None => None,
        }
    }

    /// The locator that a specifier names by itself, if it names one.
    pub fn locator(&self, specifier: &str) -> (out: Option<ModuleLocator>)
        requires
            self.wf(),
        ensures
            out is Some == locator_spec(self.entries(), specifier@) is Some,
            out is Some ==> out->0@ == locator_spec(self.entries(), specifier@)->0,
            out is Some ==> out->0.wf(),
    {
        let chars = chars_of(specifier);
        let colon = find_char(&chars, ':');
        proof {
            lemma_index_where(chars@, is_char(':'));
            if colon as int == chars@.len() {
                if chars@.contains(':') {
                    let j = choose|j: int| 0 <= j < chars@.len() && chars@[j] == ':';
                    assert(is_char(':')(chars@[j]));
                }
            } else {
                assert(is_char(':')(chars@[colon as int]));
            }
        }
        if begins_with(&chars, &chars_of("/_dev/")) || colon < chars.len() {
            ModuleLocator::from_url(specifier)
        } else if chars.len() > 0 && chars[0] == '/' {
            assert(chars@.take(1) =~= seq!['/']);
            let (pathname, query) = split_query(specifier);
            let params = match query {
                Some(query) => parse_query(query.as_str()),
                None => {
                    let none: Vec<StringKeyValue> = Vec::new();
                    assert(params_view(none@) =~= Seq::empty());
                    none
                },
            };
            proof {
                crate::utils::lemma_sorted_params(
                    match split_query_spec(specifier@).1 {
                        Some(query) => crate::utils::written_params(query),
                        None => Seq::empty(),
                    },
                );
                if split_query_spec(specifier@).1 is None {
                    assert(sorted_params(Seq::empty()) =~= Seq::<KeyValue>::empty());
                }
            }
            self.locator_from_path(pathname.as_str(), &params)
        } else {
            proof {
                if chars@.len() > 0 {
                    assert(chars@.take(1)[0] == chars@[0]);
                }
            }
            None
        }
    }

    /// The path that a namespace-qualified path stands for.
    pub fn path_from_ns_qualified(&self, str: &str) -> (out: Option<String>)
        ensures
            out is Some == physical_of(self.roots(), str@) is Some,
            out is Some ==> out->0@ == physical_of(self.roots(), str@)->0,
    {
        let chars = chars_of(str);
        let k = find_either(&chars, '/', '?');
        if 1 <= k && k < chars.len() && chars[k] == '/' {
            let ns = slice_chars(&chars, 0, k);
            let rest = slice_chars(&chars, k + 1, chars.len());
            assert(ns@ =~= qualified_namespace(str@));
            assert(rest@ =~= qualified_rest(str@));
            match self.root_ns(string_of(&ns).as_str()) {
                Some(root) => {
                    return Some(join(root.as_str(), string_of(&rest).as_str()));
                },
                None => {
                    return None;
                },
            }
        }
        None
    }
}

/// What to do next for a key that is offered to the hooks.
#[derive(Clone, Copy, Debug, PartialEq, Eq, Structural)]
pub enum HookStep {
    /// Call the hook at this position. Where it gives an answer, that is
    /// the answer; where it passes, go on behind it.
    Invoke(usize),
    /// No hook is left: do what is done without hooks.
    Exhausted,
    /// The pattern of the hook at this position could not be tried.
    Failed(usize),
}

/// What to do next for a key, from a position of the list of hooks on: call
/// the first hook whose pattern matches the key. A hook whose pattern does
/// not match is passed over; one whose pattern cannot be tried stops the
/// search.
pub open spec fn next_hook(hooks: Seq<PluginHook>, key: Seq<char>, from: int) -> HookStep
    decreases hooks.len() - from,
{
    if from < 0 || from >= hooks.len() {
        HookStep::Exhausted
    } else {
        match regex_match(hooks[from].regexp@, key) {
            Some(true) => HookStep::Invoke(from as usize),
            Some(false) => next_hook(hooks, key, from + 1),
            None => HookStep::Failed(from as usize),
        }
    }
}

impl Project {
    /// What to do next for a key that is offered to a list of hooks, from a
    /// position of the list on. The hooks are tried in the order of the list,
    /// one at a time.
    pub fn resolve_plugin_hook(hooks: &Vec<PluginHook>, str: &str, from: usize) -> (out: HookStep)
        ensures
            out == next_hook(hooks@, str@, from as int),
    {
        let mut i: usize = from;
        while i < hooks.len()
            invariant
                from <= i,
                next_hook(hooks@, str@, from as int) == next_hook(hooks@, str@, i as int),
            decreases hooks.len() - i,
        {
            match pattern_matches(hooks[i].regexp.as_str(), str) {
                Some(true) => {
                    return HookStep::Invoke(i);
                },
                Some(false) => {},
                None => {
                    return HookStep::Failed(i);
                },
            }
            i += 1;
        }
        HookStep::Exhausted
    }
}

impl Project {
    /// The root directory.
    pub fn root_path(&self) -> (out: String)
        ensures
            out@ == self.root_text(),
    {
        self.root.clone()
    }
}

} // verus!
