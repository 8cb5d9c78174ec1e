//! Laws of the traversal: what it has reached when it is over.

use crate::actions::batch::{
    enqueued_by, first_fresh, is_handing_out, is_recording, lemma_first_fresh, BatchJob,
    ImportResolutionView, Traversal,
};
use crate::types::{ModuleLocator, OnTransformResult};
use vstd::prelude::*;

verus! {

/// Whether `path` leads from an entry along the edges of `graph`: it
/// begins with an entry, and each of its modules imports the next.
pub open spec fn is_path(
    entries: Seq<Seq<char>>,
    graph: spec_fn(Seq<char>) -> Set<Seq<char>>,
    path: Seq<Seq<char>>,
) -> bool {
    &&& path.len() > 0
    &&& entries.contains(path[0])
    &&& forall|i: int| 0 < i < path.len() ==> graph(path[i - 1]).contains(#[trigger] path[i])
}

/// Whether `url` is an entry or is reached from one along the edges of
/// `graph`.
pub open spec fn is_reachable(
    entries: Seq<Seq<char>>,
    graph: spec_fn(Seq<char>) -> Set<Seq<char>>,
    url: Seq<char>,
) -> bool {
    exists|path: Seq<Seq<char>>| #[trigger] is_path(entries, graph, path) && path.last() == url
}

/// Whether a traversal knows of a URL: the module was handed out, or it is
/// still to look at.
pub open spec fn is_known(t: Traversal, url: Seq<char>) -> bool {
    t.visited_urls().contains(url) || t.pending_urls().contains(url)
}

/// What holds of a traversal whose modules import what `graph` says: it
/// knows only of modules that the entries reach; it knows of every entry; and
/// it knows of everything that a module with a result imports.
pub open spec fn follows_graph(t: Traversal, graph: spec_fn(Seq<char>) -> Set<Seq<char>>) -> bool {
    &&& forall|url: Seq<char>| #[trigger]
        is_known(t, url) ==> is_reachable(t.entry_urls(), graph, url)
    &&& forall|i: int|
        0 <= i < t.entry_urls().len() ==> is_known(t, #[trigger] t.entry_urls()[i])
    &&& forall|url: Seq<char>, to: Seq<char>|
        t.result_urls().contains(url) && #[trigger] graph(url).contains(to) ==> is_known(t, to)
}

/// A traversal that has just begun follows every graph.
pub proof fn lemma_begin_follows_graph(t: Traversal, graph: spec_fn(Seq<char>) -> Set<Seq<char>>)
    requires
        t.pending_urls() == t.entry_urls(),
        t.visited_urls().len() == 0,
        t.recorded().len() == 0,
    ensures
        follows_graph(t, graph),
{
    assert forall|url: Seq<char>| #[trigger] is_known(t, url) implies is_reachable(
        t.entry_urls(),
        graph,
        url,
    ) by {
        assert(t.pending_urls().contains(url));
        let path = seq![url];
        assert(is_path(t.entry_urls(), graph, path) && path.last() == url);
    }
    assert forall|i: int| 0 <= i < t.entry_urls().len() implies is_known(
        t,
        #[trigger] t.entry_urls()[i],
    ) by {
        assert(t.pending_urls()[i] == t.entry_urls()[i]);
    }
    assert(t.result_urls() =~= Seq::empty());
}

/// Handing out a module changes nothing of what a traversal knows of.
pub proof fn lemma_handing_out_keeps_known(
    before: Traversal,
    after: Traversal,
    out: Option<BatchJob>,
    url: Seq<char>,
)
    requires
        is_handing_out(before, after, out),
    ensures
        is_known(after, url) == is_known(before, url),
{
    let pending = before.pending_urls();
    let visited = before.visited_urls();
    lemma_first_fresh(pending, visited);
    let k = first_fresh(pending, visited);
    match out {
        Some(job) => {
            let picked = pending[k];
            if is_known(after, url) {
                if after.visited_urls().contains(url) {
                    let j = choose|j: int|
                        0 <= j < after.visited_urls().len() && after.visited_urls()[j] == url;
                    if j < visited.len() {
                        assert(visited[j] == url);
                    } else {
                        assert(url == picked);
                    }
                } else {
                    let j = choose|j: int|
                        0 <= j < after.pending_urls().len() && after.pending_urls()[j] == url;
                    assert(pending[k + 1 + j] == url);
                }
            }
            if is_known(before, url) {
                if visited.contains(url) {
                    let j = choose|j: int| 0 <= j < visited.len() && visited[j] == url;
                    assert(after.visited_urls()[j] == url);
                } else {
                    let j = choose|j: int| 0 <= j < pending.len() && pending[j] == url;
                    if j < k {
                        assert(visited.contains(pending[j]));
                    } else if j == k {
                        assert(after.visited_urls()[visited.len() as int] == url);
                    } else {
                        assert(after.pending_urls()[j - k - 1] == url);
                    }
                }
            }
        },
        None => {
            if is_known(before, url) && !visited.contains(url) {
                let j = choose|j: int| 0 <= j < pending.len() && pending[j] == url;
                assert(visited.contains(pending[j]));
            }
            if after.pending_urls().contains(url) {
                let j = choose|j: int|
                    0 <= j < after.pending_urls().len() && after.pending_urls()[j] == url;
            }
        },
    }
}

/// A traversal that follows a graph still follows it after it has handed
/// out a module.
pub proof fn lemma_handing_out_follows_graph(
    before: Traversal,
    after: Traversal,
    out: Option<BatchJob>,
    graph: spec_fn(Seq<char>) -> Set<Seq<char>>,
)
    requires
        follows_graph(before, graph),
        is_handing_out(before, after, out),
    ensures
        follows_graph(after, graph),
{
    assert forall|url: Seq<char>| #[trigger] is_known(after, url) implies is_reachable(
        after.entry_urls(),
        graph,
        url,
    ) by {
        lemma_handing_out_keeps_known(before, after, out, url);
        assert(is_known(before, url));
    }
    assert forall|i: int| 0 <= i < after.entry_urls().len() implies is_known(
        after,
        #[trigger] after.entry_urls()[i],
    ) by {
        lemma_handing_out_keeps_known(before, after, out, after.entry_urls()[i]);
        assert(is_known(before, before.entry_urls()[i]));
    }
    assert forall|url: Seq<char>, to: Seq<char>|
        after.result_urls().contains(url) && #[trigger] graph(url).contains(to) implies is_known(
        after,
        to,
    ) by {
        lemma_handing_out_keeps_known(before, after, out, to);
        assert(is_known(before, to));
    }
}

/// A traversal that follows a graph still follows it after it has recorded
/// a module, where the targets that the module added to the modules still to
/// look at are what the graph says that the module imports.
pub proof fn lemma_recording_follows_graph(
    before: Traversal,
    after: Traversal,
    accepted: bool,
    roots: Map<Seq<char>, Seq<char>>,
    locator: ModuleLocator,
    transform: OnTransformResult,
    issuer_dir: Option<Seq<char>>,
    resolved: Seq<ImportResolutionView>,
    graph: spec_fn(Seq<char>) -> Set<Seq<char>>,
)
    requires
        follows_graph(before, graph),
        accepted == before.in_flight(locator.url@),
        is_recording(before, after, accepted, roots, locator, transform, issuer_dir, resolved),
        accepted ==> forall|to: Seq<char>|
            graph(locator.url@).contains(to) <==> #[trigger] enqueued_by(
                before.options(),
                transform,
                issuer_dir,
                resolved,
            ).contains(to),
    ensures
        follows_graph(after, graph),
{
    let url0 = locator.url@;
    let added = enqueued_by(before.options(), transform, issuer_dir, resolved);
    if !accepted {
        assert forall|url: Seq<char>| #[trigger] is_known(after, url) implies is_reachable(
            after.entry_urls(),
            graph,
            url,
        ) by {
            assert(is_known(before, url));
        }
        assert forall|i: int| 0 <= i < after.entry_urls().len() implies is_known(
            after,
            #[trigger] after.entry_urls()[i],
        ) by {
            assert(is_known(before, before.entry_urls()[i]));
        }
        assert forall|url: Seq<char>, to: Seq<char>|
            after.result_urls().contains(url) && #[trigger] graph(url).contains(
                to,
            ) implies is_known(after, to) by {
            assert(is_known(before, to));
        }
    } else {
        let pending = before.pending_urls();
        assert forall|url: Seq<char>| is_known(before, url) implies is_known(after, url) by {
            if pending.contains(url) {
                let j = choose|j: int| 0 <= j < pending.len() && pending[j] == url;
                assert(after.pending_urls()[j] == url);
            }
        }
        assert forall|url: Seq<char>| #[trigger] is_known(after, url) implies is_reachable(
            after.entry_urls(),
            graph,
            url,
        ) by {
            if after.pending_urls().contains(url) && !is_known(before, url) {
                let j = choose|j: int|
                    0 <= j < after.pending_urls().len() && after.pending_urls()[j] == url;
                if j < pending.len() {
                    assert(pending[j] == url);
                } else {
                    assert(added[j - pending.len()] == url);
                    assert(added.contains(url));
                    assert(graph(url0).contains(url));
                    assert(is_known(before, url0));
                    assert(is_reachable(before.entry_urls(), graph, url0));
                    let path = choose|path: Seq<Seq<char>>| #[trigger]
                        is_path(before.entry_urls(), graph, path) && path.last() == url0;
                    lemma_one_more_step(before.entry_urls(), graph, path, url);
                }
            } else {
                assert(is_known(before, url));
            }
        }
        assert forall|i: int| 0 <= i < after.entry_urls().len() implies is_known(
            after,
            #[trigger] after.entry_urls()[i],
        ) by {
            assert(is_known(before, before.entry_urls()[i]));
        }
        assert forall|url: Seq<char>, to: Seq<char>|
            after.result_urls().contains(url) && #[trigger] graph(url).contains(
                to,
            ) implies is_known(after, to) by {
            let j = choose|j: int|
                0 <= j < after.result_urls().len() && after.result_urls()[j] == url;
            if j < before.result_urls().len() {
                assert(after.recorded()[j] == after.recorded().drop_last()[j]);
                assert(before.result_urls()[j] == url);
                assert(is_known(before, to));
            } else {
                assert(after.recorded()[j] == after.recorded().last());
                assert(url == url0);
                assert(added.contains(to));
                let i = choose|i: int| 0 <= i < added.len() && added[i] == to;
                assert(after.pending_urls()[pending.len() + i] == to);
            }
        }
    }
}

proof fn lemma_one_more_step(
    entries: Seq<Seq<char>>,
    graph: spec_fn(Seq<char>) -> Set<Seq<char>>,
    path: Seq<Seq<char>>,
    url: Seq<char>,
)
    requires
        is_path(entries, graph, path),
        graph(path.last()).contains(url),
    ensures
        is_path(entries, graph, path.push(url)),
        is_reachable(entries, graph, url),
{
    let longer = path.push(url);
    assert(longer[0] == path[0]);
    assert forall|i: int| 0 < i < longer.len() implies graph(longer[i - 1]).contains(
        #[trigger] longer[i],
    ) by {
        if i < path.len() {
            assert(longer[i] == path[i] && longer[i - 1] == path[i - 1]);
        } else {
            assert(longer[i - 1] == path.last());
        }
    }
    assert(longer.last() == url);
}

proof fn lemma_reached_has_result(
    t: Traversal,
    graph: spec_fn(Seq<char>) -> Set<Seq<char>>,
    path: Seq<Seq<char>>,
)
    requires
        follows_graph(t, graph),
        t.is_done(),
        is_path(t.entry_urls(), graph, path),
    ensures
        t.result_urls().contains(path.last()),
    decreases path.len(),
{
    let url = path.last();
    if path.len() == 1 {
        let i = choose|i: int| 0 <= i < t.entry_urls().len() && t.entry_urls()[i] == url;
        assert(is_known(t, t.entry_urls()[i]));
        lemma_known_has_result(t, url);
    } else {
        let prefix = path.drop_last();
        assert(prefix[0] == path[0]);
        assert forall|i: int| 0 < i < prefix.len() implies graph(prefix[i - 1]).contains(
            #[trigger] prefix[i],
        ) by {
            assert(prefix[i] == path[i] && prefix[i - 1] == path[i - 1]);
        }
        lemma_reached_has_result(t, graph, prefix);
        let from = prefix.last();
        assert(from == path[path.len() - 2]);
        assert(graph(path[path.len() - 1 - 1]).contains(path[path.len() - 1]));
        assert(graph(from).contains(url));
        assert(is_known(t, url));
        lemma_known_has_result(t, url);
    }
}

proof fn lemma_known_has_result(t: Traversal, url: Seq<char>)
    requires
        t.is_done(),
        is_known(t, url),
    ensures
        t.result_urls().contains(url),
{
    if !t.visited_urls().contains(url) {
        let j = choose|j: int| 0 <= j < t.pending_urls().len() && t.pending_urls()[j] == url;
        assert(t.visited_urls().contains(t.pending_urls()[j]));
    }
    let j = choose|j: int| 0 <= j < t.visited_urls().len() && t.visited_urls()[j] == url;
    assert(t.result_urls().contains(t.visited_urls()[j]));
}

/// When a traversal that follows a graph is over, the modules with a result
/// are the entries and what the entries reach along the graph: no more and no
/// less.
pub proof fn lemma_done_is_closure(t: Traversal, graph: spec_fn(Seq<char>) -> Set<Seq<char>>)
    requires
        t.wf(),
        follows_graph(t, graph),
        t.is_done(),
    ensures
        forall|url: Seq<char>|
            #[trigger] t.result_urls().contains(url) <==> is_reachable(
                t.entry_urls(),
                graph,
                url,
            ),
{
    assert forall|url: Seq<char>| #[trigger] t.result_urls().contains(url) <==> is_reachable(
        t.entry_urls(),
        graph,
        url,
    ) by {
        if t.result_urls().contains(url) {
            let j = choose|j: int| 0 <= j < t.result_urls().len() && t.result_urls()[j] == url;
            assert(t.visited_urls().contains(t.result_urls()[j]));
            assert(is_known(t, url));
        }
        if is_reachable(t.entry_urls(), graph, url) {
            let path = choose|path: Seq<Seq<char>>| #[trigger]
                is_path(t.entry_urls(), graph, path) && path.last() == url;
            lemma_reached_has_result(t, graph, path);
        }
    }
}

} // verus!
