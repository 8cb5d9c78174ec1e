//! Ordering texts: the positions of a list of keys, sorted by key.

use crate::text::{before, chars_of, lex_lt};
use vstd::prelude::*;

verus! {

/// A list of positions, sorted by their keys, with one more position: it
/// goes behind every position whose key does not come after its own.
pub open spec fn insert_index(keys: Seq<Seq<char>>, sorted: Seq<int>, i: int) -> Seq<int>
    decreases sorted.len(),
{
    if sorted.len() == 0 {
        seq![i]
    } else if lex_lt(keys[i], keys[sorted.last()]) {
        insert_index(keys, sorted.drop_last(), i).push(sorted.last())
    } else {
        sorted.push(i)
    }
}

/// The first `n` positions of a list of keys, in the order of their keys;
/// positions of one key keep their order.
pub open spec fn ascending_order(keys: Seq<Seq<char>>, n: int) -> Seq<int>
    decreases n,
{
    if n <= 0 {
        Seq::empty()
    } else {
        insert_index(keys, ascending_order(keys, n - 1), n - 1)
    }
}

/// The positions of a list of keys from the last key to the first: the
/// ascending order, backwards.
pub open spec fn descending_order(keys: Seq<Seq<char>>) -> Seq<int> {
    ascending_order(keys, keys.len() as int).reverse()
}

/// Whether a list holds each of the first `n` positions exactly once.
pub open spec fn is_arrangement(order: Seq<int>, n: int) -> bool {
    &&& order.len() == n
    &&& forall|j: int| 0 <= j < order.len() ==> 0 <= #[trigger] order[j] < n
    &&& forall|j: int, k: int|
        0 <= j < k < order.len() ==> #[trigger] order[j] != #[trigger] order[k]
}

/// Whether the keys at the positions of a list never go down.
pub open spec fn is_ascending(keys: Seq<Seq<char>>, order: Seq<int>) -> bool {
    forall|j: int, k: int|
        0 <= j < k < order.len() ==> !lex_lt(keys[#[trigger] order[k]], keys[#[trigger] order[j]])
}

proof fn lemma_insert_index_at(keys: Seq<Seq<char>>, sorted: Seq<int>, i: int, k: int)
    requires
        0 <= k <= sorted.len(),
        forall|j: int| k <= j < sorted.len() ==> lex_lt(keys[i], keys[#[trigger] sorted[j]]),
        k > 0 ==> !lex_lt(keys[i], keys[sorted[k - 1]]),
    ensures
        insert_index(keys, sorted, i) == sorted.take(k).push(i) + sorted.skip(k),
    decreases sorted.len(),
{
    if sorted.len() == 0 {
        assert(insert_index(keys, sorted, i) =~= sorted.take(k).push(i) + sorted.skip(k));
    } else if k == sorted.len() {
        assert(sorted.push(i) =~= sorted.take(k).push(i) + sorted.skip(k));
    } else {
        assert(lex_lt(keys[i], keys[sorted[sorted.len() - 1]]));
        let front = sorted.drop_last();
        assert forall|j: int| k <= j < front.len() implies lex_lt(
            keys[i],
            keys[#[trigger] front[j]],
        ) by {
            assert(front[j] == sorted[j]);
        }
        lemma_insert_index_at(keys, front, i, k);
        assert(front.take(k) =~= sorted.take(k));
        assert((front.take(k).push(i) + front.skip(k)).push(sorted.last()) =~= sorted.take(
            k,
        ).push(i) + sorted.skip(k));
    }
}

spec fn insert_place(keys: Seq<Seq<char>>, sorted: Seq<int>, i: int) -> int
    decreases sorted.len(),
{
    if sorted.len() == 0 {
        0
    } else if lex_lt(keys[i], keys[sorted.last()]) {
        insert_place(keys, sorted.drop_last(), i)
    } else {
        sorted.len() as int
    }
}

proof fn lemma_insert_place(keys: Seq<Seq<char>>, sorted: Seq<int>, i: int)
    ensures
        0 <= insert_place(keys, sorted, i) <= sorted.len(),
        forall|j: int|
            insert_place(keys, sorted, i) <= j < sorted.len() ==> lex_lt(
                keys[i],
                keys[#[trigger] sorted[j]],
            ),
        insert_place(keys, sorted, i) > 0 ==> !lex_lt(
            keys[i],
            keys[sorted[insert_place(keys, sorted, i) - 1]],
        ),
    decreases sorted.len(),
{
    if sorted.len() > 0 && lex_lt(keys[i], keys[sorted.last()]) {
        let front = sorted.drop_last();
        lemma_insert_place(keys, front, i);
        let k = insert_place(keys, front, i);
        assert forall|j: int| k <= j < sorted.len() implies lex_lt(
            keys[i],
            keys[#[trigger] sorted[j]],
        ) by {
            if j < front.len() {
                assert(sorted[j] == front[j]);
            }
        }
        if k > 0 {
            assert(sorted[k - 1] == front[k - 1]);
        }
    }
}

/// The ascending order holds each position once, and its keys never go
/// down.
pub proof fn lemma_ascending_order(keys: Seq<Seq<char>>, n: int)
    requires
        0 <= n <= keys.len(),
    ensures
        is_arrangement(ascending_order(keys, n), n),
        is_ascending(keys, ascending_order(keys, n)),
    decreases n,
{
    if n > 0 {
        lemma_ascending_order(keys, n - 1);
        let sorted = ascending_order(keys, n - 1);
        let i = n - 1;
        lemma_insert_place(keys, sorted, i);
        let k = insert_place(keys, sorted, i);
        lemma_insert_index_at(keys, sorted, i, k);
        let out = ascending_order(keys, n);
        assert(out =~= sorted.take(k).push(i) + sorted.skip(k));
        assert forall|j: int| 0 <= j < out.len() implies 0 <= #[trigger] out[j] < n by {
            if j < k {
                assert(out[j] == sorted[j]);
            } else if j > k {
                assert(out[j] == sorted[j - 1]);
            }
        }
        assert forall|a: int, b: int| 0 <= a < b < out.len() implies #[trigger] out[a]
            != #[trigger] out[b] by {
            let x = if a < k {
                sorted[a]
            } else if a == k {
                i
            } else {
                sorted[a - 1]
            };
            let y = if b < k {
                sorted[b]
            } else if b == k {
                i
            } else {
                sorted[b - 1]
            };
            assert(out[a] == x && out[b] == y);
        }
        assert forall|a: int, b: int| 0 <= a < b < out.len() implies !lex_lt(
            keys[#[trigger] out[b]],
            keys[#[trigger] out[a]],
        ) by {
            if b < k {
                assert(out[a] == sorted[a] && out[b] == sorted[b]);
            } else if b == k {
                assert(out[a] == sorted[a] && out[b] == i);
                if a < k - 1 {
                    assert(!lex_lt(keys[sorted[k - 1]], keys[sorted[a]]));
                    if lex_lt(keys[i], keys[sorted[a]]) {
                        crate::text::lemma_lex_total(keys[sorted[k - 1]], keys[sorted[a]]);
                        if keys[sorted[k - 1]] != keys[sorted[a]] {
                            crate::text::lemma_lex_transitive(
                                keys[i],
                                keys[sorted[a]],
                                keys[sorted[k - 1]],
                            );
                        }
                    }
                }
            } else if a < k {
                assert(out[a] == sorted[a] && out[b] == sorted[b - 1]);
            } else if a == k {
                assert(out[a] == i && out[b] == sorted[b - 1]);
                crate::text::lemma_lex_total(keys[i], keys[sorted[b - 1]]);
            } else {
                assert(out[a] == sorted[a - 1] && out[b] == sorted[b - 1]);
            }
        }
    }
}

/// The positions of a list of keys as numbers.
pub open spec fn positions_view(order: Seq<usize>) -> Seq<int> {
    order.map_values(|i: usize| i as int)
}

/// The texts of a list of strings.
pub open spec fn keys_view(keys: Seq<String>) -> Seq<Seq<char>> {
    keys.map_values(|k: String| k@)
}

fn comes_before(key: &Vec<char>, keys: &Vec<String>, at: usize) -> (out: bool)
    requires
        at < keys.len(),
    ensures
        out == lex_lt(key@, keys@[at as int]@),
{
    before(key, &chars_of(keys[at].as_str()))
}

/// The positions of a list of keys, in the order of their keys.
pub fn sort_indices(keys: &Vec<String>) -> (out: Vec<usize>)
    ensures
        positions_view(out@) == ascending_order(keys_view(keys@), keys@.len() as int),
        is_arrangement(positions_view(out@), keys@.len() as int),
        is_ascending(keys_view(keys@), positions_view(out@)),
{
    let ghost view = keys_view(keys@);
    let mut out: Vec<usize> = Vec::new();
    let mut i: usize = 0;
    assert(positions_view(out@) =~= Seq::empty());
    while i < keys.len()
        invariant
            i <= keys.len(),
            view == keys_view(keys@),
            positions_view(out@) == ascending_order(view, i as int),
            is_arrangement(positions_view(out@), i as int),
        decreases keys.len() - i,
    {
        assert forall|j: int| 0 <= j < out.len() implies #[trigger] out@[j] < i by {
            assert(positions_view(out@)[j] == out@[j]);
        }
        let key = chars_of(keys[i].as_str());
        let mut k: usize = out.len();
        while k > 0 && comes_before(&key, keys, out[k - 1])
            invariant
                k <= out.len(),
                key@ == view[i as int],
                view == keys_view(keys@),
                i < keys.len(),
                forall|j: int| 0 <= j < out.len() ==> #[trigger] out@[j] < i,
                forall|j: int|
                    k <= j < out.len() ==> lex_lt(
                        view[i as int],
                        view[#[trigger] positions_view(out@)[j]],
                    ),
            decreases k,
        {
            assert(positions_view(out@)[k - 1] == out@[k - 1]);
            k -= 1;
        }
        proof {
            let sorted = positions_view(out@);
            if k > 0 {
                assert(sorted[k - 1] == out@[k - 1]);
            }
            lemma_insert_index_at(view, sorted, i as int, k as int);
            assert(positions_view(out@.insert(k as int, i)) =~= sorted.take(k as int).push(
                i as int,
            ) + sorted.skip(k as int));
            lemma_ascending_order(view, i + 1);
        }
        out.insert(k, i);
        i += 1;
    }
    proof {
        lemma_ascending_order(view, keys@.len() as int);
    }
    out
}

} // verus!
