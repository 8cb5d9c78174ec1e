//! Laws of the locator URL codec.

use crate::encoding::{is_encoded_char, lemma_percent_round_trip, percent_encoded};
use crate::text::{index_where, is_char, is_either, lemma_index_where, lemma_index_where_unique};
use crate::types::{
    dev_kind, dev_prefix, dev_query, dev_specifier, dev_tail, from_url_spec, is_dev_url,
    kind_prefix, locator_of, KeyValue, ModuleLocator, ModuleLocatorKind,
};
use crate::utils::{
    distinct_names, lemma_sorted_params_canonical, lemma_sorted_params_fixed, pair_of, pair_text,
    pairs_of, pairs_text, query_text, sorted_params, written_params,
};
use vstd::prelude::*;

verus! {

/// Whether every character can stand in a written query: an unreserved
/// character, `%`, or one of `?`, `&`, `=`.
pub open spec fn is_query_safe(s: Seq<char>) -> bool {
    forall|i: int|
        0 <= i < s.len() ==> is_encoded_char(#[trigger] s[i]) || s[i] == '?' || s[i] == '&'
            || s[i] == '='
}

proof fn lemma_pair_of_text(p: KeyValue)
    ensures
        pair_of(pair_text(p)) == p,
        forall|i: int|
            0 <= i < pair_text(p).len() ==> is_encoded_char(#[trigger] pair_text(p)[i])
                || pair_text(p)[i] == '=',
{
    let name = percent_encoded(p.name);
    let value = percent_encoded(p.value);
    lemma_percent_round_trip(p.name);
    lemma_percent_round_trip(p.value);
    let t = pair_text(p);
    if p.value.len() == 0 {
        assert(t == name);
        assert forall|j: int| 0 <= j < t.len() implies !is_char('=')(#[trigger] t[j]) by {
            assert(is_encoded_char(name[j]));
        }
        lemma_index_where_unique(t, is_char('='), t.len() as int);
        assert(p.value =~= Seq::empty());
    } else {
        let k = name.len() as int;
        assert(t =~= name + seq!['='] + value);
        assert forall|j: int| 0 <= j < k implies !is_char('=')(#[trigger] t[j]) by {
            assert(is_encoded_char(name[j]));
        }
        assert(t[k] == '=');
        lemma_index_where_unique(t, is_char('='), k);
        assert(t.take(k) =~= name);
        assert(t.skip(k + 1) =~= value);
        assert forall|i: int| 0 <= i < t.len() implies is_encoded_char(#[trigger] t[i])
            || t[i] == '=' by {
            if i < k {
                assert(t[i] == name[i]);
            } else if i > k {
                assert(t[i] == value[i - k - 1]);
            }
        }
    }
}

proof fn lemma_pairs_of_plain(piece: Seq<char>)
    requires
        forall|i: int| 0 <= i < piece.len() ==> piece[i] != '?' && piece[i] != '&',
    ensures
        pairs_of(piece) == seq![pair_of(piece)],
{
    lemma_index_where_unique(piece, is_either('?', '&'), piece.len() as int);
}

proof fn lemma_pairs_of_concat(a: Seq<char>, sep: char, b: Seq<char>)
    requires
        sep == '?' || sep == '&',
    ensures
        pairs_of(a + seq![sep] + b) == pairs_of(a) + pairs_of(b),
    decreases a.len(),
{
    let s = a + seq![sep] + b;
    let seps = is_either('?', '&');
    lemma_index_where(a, seps);
    let ka = index_where(a, seps);
    assert forall|j: int| 0 <= j < ka implies !seps(#[trigger] s[j]) by {
        assert(s[j] == a[j]);
    }
    if ka < a.len() {
        assert(s[ka] == a[ka]);
        lemma_index_where_unique(s, seps, ka);
        assert(s.take(ka) =~= a.take(ka));
        assert(s.skip(ka + 1) =~= a.skip(ka + 1) + seq![sep] + b);
        lemma_pairs_of_concat(a.skip(ka + 1), sep, b);
        assert(pairs_of(s) =~= pairs_of(a) + pairs_of(b));
    } else {
        assert(s[ka] == sep);
        lemma_index_where_unique(s, seps, ka);
        assert(s.take(ka) =~= a);
        assert(s.skip(ka + 1) =~= b);
    }
}

proof fn lemma_pairs_round_trip(params: Seq<KeyValue>)
    requires
        params.len() > 0,
    ensures
        pairs_of(pairs_text(params)) == params,
        is_query_safe(pairs_text(params)),
    decreases params.len(),
{
    let last = params.last();
    assert(last == params[params.len() - 1]);
    lemma_pair_of_text(last);
    lemma_pairs_of_plain(pair_text(last));
    if params.len() == 1 {
        assert(params =~= seq![last]);
    } else {
        let front = params.drop_last();
        lemma_pairs_round_trip(front);
        lemma_pairs_of_concat(pairs_text(front), '&', pair_text(last));
        assert(params =~= front + seq![last]);
        let t = pairs_text(params);
        let n = pairs_text(front).len() as int;
        assert forall|i: int| 0 <= i < t.len() implies is_encoded_char(#[trigger] t[i])
            || t[i] == '?' || t[i] == '&' || t[i] == '=' by {
            if i < n {
                assert(t[i] == pairs_text(front)[i]);
            } else if i > n {
                assert(t[i] == pair_text(last)[i - n - 1]);
            }
        }
    }
}

/// Reading a query that was written from parameters gives the parameters
/// back, in the order written.
pub proof fn lemma_query_round_trip(params: Seq<KeyValue>)
    ensures
        written_params(query_text(params)) == params,
        is_query_safe(query_text(params)),
        query_text(params).len() > 0 ==> query_text(params)[0] == '?',
        params.len() == 0 ==> query_text(params).len() == 0,
{
    if params.len() == 0 {
        assert(params =~= Seq::empty());
    } else {
        lemma_pairs_round_trip(params);
        let q = query_text(params);
        assert(q.skip(1) =~= pairs_text(params));
        assert forall|i: int| 0 <= i < q.len() implies is_encoded_char(#[trigger] q[i])
            || q[i] == '?' || q[i] == '&' || q[i] == '=' by {
            if i > 0 {
                assert(q[i] == pairs_text(params)[i - 1]);
            }
        }
    }
}

/// Reading the URL of a file or internal locator gives the locator back,
/// parameters in their sorted order included, where the specifier holds no
/// `?`. (A `?` in the specifier would be read as the start of the query.)
pub proof fn lemma_url_round_trip(l: ModuleLocator)
    requires
        l.wf(),
        l.kind == ModuleLocatorKind::File || l.kind == ModuleLocatorKind::Internal,
        !l.specifier@.contains('?'),
    ensures
        from_url_spec(l.url@) == Some(l@),
{
    reveal_strlit("/_dev/");
    reveal_strlit("/_dev/file/");
    reveal_strlit("/_dev/internal/");
    reveal_strlit("file");
    reveal_strlit("internal");
    let v = l@;
    let s = v.url;
    let spec = v.specifier;
    let query = query_text(v.params);
    lemma_query_round_trip(v.params);
    let word = if v.kind == ModuleLocatorKind::File {
        "file"@
    } else {
        "internal"@
    };
    assert(kind_prefix(v.kind) =~= dev_prefix() + word + seq!['/']);
    assert(s =~= dev_prefix() + word + seq!['/'] + spec + query);
    assert(s.take(dev_prefix().len() as int) =~= dev_prefix());
    let rest = s.skip(dev_prefix().len() as int);
    assert(rest =~= word + seq!['/'] + spec + query);
    let seps = is_either('/', '?');
    let k = word.len() as int;
    assert forall|j: int| 0 <= j < k implies !seps(#[trigger] rest[j]) by {
        assert(rest[j] == word[j]);
    }
    assert(rest[k] == '/');
    lemma_index_where_unique(rest, seps, k);
    assert(dev_kind(s) =~= word);
    let tail = dev_tail(s);
    assert(tail =~= spec + query);
    let q = spec.len() as int;
    assert forall|j: int| 0 <= j < q implies !is_char('?')(#[trigger] tail[j]) by {
        assert(tail[j] == spec[j]);
        assert(spec.contains(spec[j]));
    }
    if query.len() > 0 {
        assert(tail[q] == query[0]);
    }
    lemma_index_where_unique(tail, is_char('?'), q);
    assert(dev_specifier(s) =~= spec);
    assert(dev_query(s) =~= query);
    assert(is_dev_url(s));
    lemma_sorted_params_fixed(v.params);
    assert("file"@ != "internal"@) by {
        assert("file"@.len() != "internal"@.len());
    }
}

/// Locators made of the same kind, the same specifier and the same
/// parameters are the same locator, with the same URL, in whatever order the
/// parameters were given, where no two parameters share a name. (Parameters
/// of one name keep the order they were given in.)
pub proof fn lemma_param_order_is_canonical(
    kind: ModuleLocatorKind,
    specifier: Seq<char>,
    first: Seq<KeyValue>,
    second: Seq<KeyValue>,
)
    requires
        distinct_names(first),
        distinct_names(second),
        first.to_multiset() == second.to_multiset(),
    ensures
        locator_of(kind, specifier, sorted_params(first)) == locator_of(
            kind,
            specifier,
            sorted_params(second),
        ),
{
    lemma_sorted_params_canonical(first, second);
}

} // verus!
