//! Helpers on queries, file extensions and media types.

use crate::classes::project::Project;
use crate::encoding::{
    decode_text, hex_encode, hex_lower, json_quote, json_quoted, lowercase, lowercased,
    percent_encoded, query_decoded,
    sha1_digest, sha1_of, url_encode,
};
use crate::paths::{dirname, join, joined, parent_path};
use crate::text::{
    before, begins_with, chars_of, find_char, find_either, index_of, index_where, is_either,
    lemma_index_where, lex_lt, newline_count, push_text, same, slice_chars, starts_with,
    string_of,
};
use crate::types::{
    params_view, physical_path_spec, KeyValue, LocatorView, ModuleLocator, ModuleLocatorKind,
    StringKeyValue,
};
use vstd::prelude::*;

pub mod errors;
pub mod finder;
pub mod json;
pub mod swc;
pub mod order;

verus! {

/// A sorted list with one more parameter: `p` goes behind every parameter
/// whose name does not come after its own.
pub open spec fn insert_param(sorted: Seq<KeyValue>, p: KeyValue) -> Seq<KeyValue>
    decreases sorted.len(),
{
    if sorted.len() == 0 {
        seq![p]
    } else if lex_lt(p.name, sorted.last().name) {
        insert_param(sorted.drop_last(), p).push(sorted.last())
    } else {
        sorted.push(p)
    }
}

/// The parameters in the order of their names; parameters of one name keep
/// the order they came in.
pub open spec fn sorted_params(params: Seq<KeyValue>) -> Seq<KeyValue>
    decreases params.len(),
{
    if params.len() == 0 {
        Seq::empty()
    } else {
        insert_param(sorted_params(params.drop_last()), params.last())
    }
}

/// Whether no parameter stands before one whose name comes first.
pub open spec fn is_sorted(params: Seq<KeyValue>) -> bool {
    forall|i: int, j: int|
        0 <= i < j < params.len() ==> !lex_lt(
            (#[trigger] params[j]).name,
            (#[trigger] params[i]).name,
        )
}

proof fn lemma_insert_param_at(sorted: Seq<KeyValue>, p: KeyValue, k: int)
    requires
        0 <= k <= sorted.len(),
        forall|j: int| k <= j < sorted.len() ==> lex_lt(p.name, (#[trigger] sorted[j]).name),
        k > 0 ==> !lex_lt(p.name, sorted[k - 1].name),
    ensures
        insert_param(sorted, p) == sorted.take(k).push(p) + sorted.skip(k),
    decreases sorted.len(),
{
    if sorted.len() == 0 {
        assert(insert_param(sorted, p) =~= sorted.take(k).push(p) + sorted.skip(k));
    } else if k == sorted.len() {
        assert(!lex_lt(p.name, sorted.last().name));
        assert(sorted.push(p) =~= sorted.take(k).push(p) + sorted.skip(k));
    } else {
        assert(lex_lt(p.name, sorted[sorted.len() - 1].name));
        let front = sorted.drop_last();
        assert forall|j: int| k <= j < front.len() implies lex_lt(
            p.name,
            (#[trigger] front[j]).name,
        ) by {
            assert(front[j] == sorted[j]);
        }
        lemma_insert_param_at(front, p, k);
        assert(front.take(k) =~= sorted.take(k));
        assert((front.take(k).push(p) + front.skip(k)).push(sorted.last()) =~= sorted.take(
            k,
        ).push(p) + sorted.skip(k));
    }
}

/// Inserting into a sorted list leaves it sorted.
pub proof fn lemma_insert_param_sorted(sorted: Seq<KeyValue>, p: KeyValue)
    requires
        is_sorted(sorted),
    ensures
        is_sorted(insert_param(sorted, p)),
        insert_param(sorted, p).len() == sorted.len() + 1,
    decreases sorted.len(),
{
    if sorted.len() == 0 {
    } else if lex_lt(p.name, sorted.last().name) {
        let front = sorted.drop_last();
        assert forall|i: int, j: int| 0 <= i < j < front.len() implies !lex_lt(
            (#[trigger] front[j]).name,
            (#[trigger] front[i]).name,
        ) by {
            assert(front[i] == sorted[i] && front[j] == sorted[j]);
        }
        lemma_insert_param_sorted(front, p);
        let inner = insert_param(front, p);
        let out = inner.push(sorted.last());
        lemma_insert_param_members(front, p);
        assert forall|i: int, j: int| 0 <= i < j < out.len() implies !lex_lt(
            (#[trigger] out[j]).name,
            (#[trigger] out[i]).name,
        ) by {
            if j < inner.len() {
                assert(out[i] == inner[i] && out[j] == inner[j]);
            } else {
                assert(out[i] == inner[i]);
                if inner[i] == p {
                    crate::text::lemma_lex_total(p.name, sorted.last().name);
                } else {
                    let m = choose|m: int| 0 <= m < front.len() && front[m] == inner[i];
                    assert(front[m] == sorted[m]);
                    assert(sorted[sorted.len() - 1] == sorted.last());
                }
            }
        }
    } else {
        let out = sorted.push(p);
        assert forall|i: int, j: int| 0 <= i < j < out.len() implies !lex_lt(
            (#[trigger] out[j]).name,
            (#[trigger] out[i]).name,
        ) by {
            if j < sorted.len() {
                assert(out[i] == sorted[i] && out[j] == sorted[j]);
            } else {
                assert(out[i] == sorted[i]);
                if lex_lt(p.name, sorted[i].name) {
                    if i < sorted.len() - 1 {
                        assert(!lex_lt(sorted[sorted.len() - 1].name, sorted[i].name));
                        crate::text::lemma_lex_total(sorted.last().name, sorted[i].name);
                        if sorted.last().name == sorted[i].name {
                        } else {
                            crate::text::lemma_lex_transitive(
                                p.name,
                                sorted[i].name,
                                sorted.last().name,
                            );
                        }
                    }
                }
            }
        }
    }
}

/// What a list holds after an insertion: what it held, and `p`.
pub proof fn lemma_insert_param_members(sorted: Seq<KeyValue>, p: KeyValue)
    ensures
        forall|i: int|
            0 <= i < insert_param(sorted, p).len() ==> {
                let x = #[trigger] insert_param(sorted, p)[i];
                x == p || exists|m: int| 0 <= m < sorted.len() && sorted[m] == x
            },
        insert_param(sorted, p).to_multiset() == sorted.to_multiset().insert(p),
    decreases sorted.len(),
{
    broadcast use vstd::seq_lib::group_to_multiset_ensures;

    if sorted.len() == 0 {
        assert(sorted =~= Seq::empty());
    } else if lex_lt(p.name, sorted.last().name) {
        let front = sorted.drop_last();
        lemma_insert_param_members(front, p);
        let inner = insert_param(front, p);
        let out = inner.push(sorted.last());
        assert forall|i: int| 0 <= i < out.len() implies {
            let x = #[trigger] out[i];
            x == p || exists|m: int| 0 <= m < sorted.len() && sorted[m] == x
        } by {
            if i < inner.len() {
                let x = inner[i];
                if x != p {
                    let m = choose|m: int| 0 <= m < front.len() && front[m] == x;
                    assert(sorted[m] == x);
                }
            } else {
                assert(sorted[sorted.len() - 1] == out[i]);
            }
        }
        assert(sorted =~= front.push(sorted.last()));
        assert(out.to_multiset() =~= sorted.to_multiset().insert(p));
    } else {
        let out = sorted.push(p);
        assert forall|i: int| 0 <= i < out.len() implies {
            let x = #[trigger] out[i];
            x == p || exists|m: int| 0 <= m < sorted.len() && sorted[m] == x
        } by {
            if i < sorted.len() {
                assert(sorted[i] == out[i]);
            }
        }
    }
}

/// Sorting yields a sorted list that holds what the list held.
pub proof fn lemma_sorted_params(params: Seq<KeyValue>)
    ensures
        is_sorted(sorted_params(params)),
        sorted_params(params).len() == params.len(),
        sorted_params(params).to_multiset() == params.to_multiset(),
    decreases params.len(),
{
    broadcast use vstd::seq_lib::group_to_multiset_ensures;

    if params.len() == 0 {
        assert(params =~= Seq::empty());
    } else {
        let front = params.drop_last();
        lemma_sorted_params(front);
        lemma_insert_param_sorted(sorted_params(front), params.last());
        lemma_insert_param_members(sorted_params(front), params.last());
        assert(params =~= front.push(params.last()));
    }
}

/// Sorting a sorted list changes nothing.
pub proof fn lemma_sorted_params_fixed(params: Seq<KeyValue>)
    requires
        is_sorted(params),
    ensures
        sorted_params(params) == params,
    decreases params.len(),
{
    if params.len() == 0 {
        assert(params =~= Seq::empty());
    } else {
        let front = params.drop_last();
        assert forall|i: int, j: int| 0 <= i < j < front.len() implies !lex_lt(
            (#[trigger] front[j]).name,
            (#[trigger] front[i]).name,
        ) by {
            assert(front[i] == params[i] && front[j] == params[j]);
        }
        lemma_sorted_params_fixed(front);
        if front.len() > 0 {
            assert(front.last() == params[params.len() - 2]);
            assert(params.last() == params[params.len() - 1]);
        }
        assert(params =~= front.push(params.last()));
    }
}

/// The parameters in the order of their names; parameters of one name keep
/// the order they came in.
pub fn sort_params(params: &Vec<StringKeyValue>) -> (out: Vec<StringKeyValue>)
    ensures
        params_view(out@) == sorted_params(params_view(params@)),
{
    let mut out: Vec<StringKeyValue> = Vec::new();
    let mut i: usize = 0;
    assert(params_view(params@).take(0) =~= Seq::empty());
    assert(params_view(out@) =~= Seq::empty());
    while i < params.len()
        invariant
            i <= params.len(),
            params_view(out@) == sorted_params(params_view(params@).take(i as int)),
        decreases params.len() - i,
    {
        let p = params[i].clone();
        let name = chars_of(p.name.as_str());
        let mut k: usize = out.len();
        while k > 0 && before(&name, &chars_of(out[k - 1].name.as_str()))
            invariant
                k <= out.len(),
                name@ == p.name@,
                forall|j: int| k <= j < out.len() ==> lex_lt(p.name@, (#[trigger] out@[j]).name@),
            decreases k,
        {
            k -= 1;
        }
        proof {
            let sorted = params_view(out@);
            let view = params_view(params@);
            assert(view.take(i + 1).drop_last() =~= view.take(i as int));
            assert(view.take(i + 1).last() == p@);
            assert forall|j: int| k <= j < sorted.len() implies lex_lt(
                p@.name,
                (#[trigger] sorted[j]).name,
            ) by {
                assert(sorted[j] == out@[j]@);
            }
            if k > 0 {
                assert(sorted[k - 1] == out@[k - 1]@);
            }
            lemma_insert_param_at(sorted, p@, k as int);
            assert(params_view(out@.insert(k as int, p)) =~= sorted.take(k as int).push(p@)
                + sorted.skip(k as int));
        }
        out.insert(k, p);
        i += 1;
    }
    assert(params_view(params@).take(params@.len() as int) =~= params_view(params@));
    out
}

/// A text cut at its first `?`: what stands before it, and what stands
/// behind it if there is one.
pub open spec fn split_query_spec(s: Seq<char>) -> (Seq<char>, Option<Seq<char>>) {
    let k = index_of(s, '?');
    if 0 <= k < s.len() {
        (s.take(k), Some(s.skip(k + 1)))
    } else {
        (s, None)
    }
}

/// Cuts a text at its first `?`.
pub fn split_query(str: &str) -> (out: (String, Option<String>))
    ensures
        out.0@ == split_query_spec(str@).0,
        out.1 is Some == split_query_spec(str@).1 is Some,
        out.1 is Some ==> out.1->0@ == split_query_spec(str@).1->0,
{
    let chars = chars_of(str);
    let k = find_char(&chars, '?');
    if k < chars.len() {
        let subject = slice_chars(&chars, 0, k);
        let query = slice_chars(&chars, k + 1, chars.len());
        assert(chars@.take(k as int) =~= chars@.subrange(0, k as int));
        assert(chars@.skip(k + 1) =~= chars@.subrange(k + 1, chars@.len() as int));
        (string_of(&subject), Some(string_of(&query)))
    } else {
        (string_of(&chars), None)
    }
}

/// One piece of a query as a parameter: the name stands before the first
/// `=`, the value behind it; without `=` the piece is the name and the value
/// is empty. Name and value are read with their percent escapes undone.
pub open spec fn pair_of(piece: Seq<char>) -> KeyValue {
    let k = index_of(piece, '=');
    if 0 <= k < piece.len() {
        KeyValue { name: query_decoded(piece.take(k)), value: query_decoded(piece.skip(k + 1)) }
    } else {
        KeyValue { name: query_decoded(piece), value: Seq::empty() }
    }
}

/// The parameters of a query body, in the order they are written: the body
/// is cut at every `?` and `&`, and each piece, empty ones too, is one
/// parameter.
pub open spec fn pairs_of(body: Seq<char>) -> Seq<KeyValue>
    decreases body.len(),
{
    let k = index_where(body, is_either('?', '&'));
    if 0 <= k < body.len() {
        seq![pair_of(body.take(k))] + pairs_of(body.skip(k + 1))
    } else {
        seq![pair_of(body)]
    }
}

/// The parameters of a query in the order they are written. An empty query
/// has none; one leading `?` is dropped.
pub open spec fn written_params(query: Seq<char>) -> Seq<KeyValue> {
    if query.len() == 0 {
        Seq::empty()
    } else if query[0] == '?' {
        pairs_of(query.skip(1))
    } else {
        pairs_of(query)
    }
}

/// The parameters of a query, sorted by name.
pub open spec fn parse_query_spec(query: Seq<char>) -> Seq<KeyValue> {
    sorted_params(written_params(query))
}

fn parse_pair(piece: &Vec<char>) -> (out: StringKeyValue)
    ensures
        out@ == pair_of(piece@),
{
    let k = find_char(piece, '=');
    if k < piece.len() {
        let name = slice_chars(piece, 0, k);
        let value = slice_chars(piece, k + 1, piece.len());
        assert(piece@.take(k as int) =~= piece@.subrange(0, k as int));
        assert(piece@.skip(k + 1) =~= piece@.subrange(k + 1, piece@.len() as int));
        StringKeyValue {
            name: decode_text(string_of(&name).as_str()),
            value: decode_text(string_of(&value).as_str()),
        }
    } else {
        StringKeyValue { name: decode_text(string_of(piece).as_str()), value: String::new() }
    }
}

fn parse_pairs(body: Vec<char>) -> (out: Vec<StringKeyValue>)
    ensures
        params_view(out@) == pairs_of(body@),
{
    let mut out: Vec<StringKeyValue> = Vec::new();
    let mut rest = body;
    assert(params_view(out@) =~= Seq::empty());
    loop
        invariant_except_break
            pairs_of(body@) == params_view(out@) + pairs_of(rest@),
        ensures
            params_view(out@) == pairs_of(body@),
        decreases rest.len(),
    {
        let k = find_either(&rest, '?', '&');
        proof {
            lemma_index_where(rest@, is_either('?', '&'));
        }
        if k < rest.len() {
            let piece = slice_chars(&rest, 0, k);
            let tail = slice_chars(&rest, k + 1, rest.len());
            let pair = parse_pair(&piece);
            proof {
                assert(rest@.take(k as int) =~= piece@);
                assert(rest@.skip(k + 1) =~= tail@);
                assert(params_view(out@.push(pair)) =~= params_view(out@).push(pair@));
                assert(params_view(out@).push(pair@) + pairs_of(tail@) =~= params_view(out@) + (
                seq![pair@] + pairs_of(tail@)));
            }
            out.push(pair);
            rest = tail;
        } else {
            let pair = parse_pair(&rest);
            proof {
                assert(params_view(out@.push(pair)) =~= params_view(out@).push(pair@));
                assert(params_view(out@).push(pair@) =~= params_view(out@) + seq![pair@]);
            }
            out.push(pair);
            break ;
        }
    }
    out
}

/// Reads the parameters of a query and sorts them by name.
pub fn parse_query(str: &str) -> (out: Vec<StringKeyValue>)
    ensures
        params_view(out@) == parse_query_spec(str@),
{
    let chars = chars_of(str);
    if chars.len() == 0 {
        let out: Vec<StringKeyValue> = Vec::new();
        assert(params_view(out@) =~= Seq::empty());
        return out;
    }
    let body = if chars[0] == '?' {
        let body = slice_chars(&chars, 1, chars.len());
        assert(chars@.skip(1) =~= body@);
        body
    } else {
        chars
    };
    let written = parse_pairs(body);
    sort_params(&written)
}

/// One parameter as it is written in a query: the encoded name, and `=` and
/// the encoded value unless the value is empty.
pub open spec fn pair_text(p: KeyValue) -> Seq<char> {
    if p.value.len() == 0 {
        percent_encoded(p.name)
    } else {
        percent_encoded(p.name) + seq!['='] + percent_encoded(p.value)
    }
}

/// The parameters as they are written in a query, with `&` between them.
pub open spec fn pairs_text(params: Seq<KeyValue>) -> Seq<char>
    decreases params.len(),
{
    if params.len() == 0 {
        Seq::empty()
    } else if params.len() == 1 {
        pair_text(params[0])
    } else {
        pairs_text(params.drop_last()) + seq!['&'] + pair_text(params.last())
    }
}

/// The query that holds the parameters in the order given: empty without
/// parameters, else `?` and the parameters.
pub open spec fn query_text(params: Seq<KeyValue>) -> Seq<char> {
    if params.len() == 0 {
        Seq::empty()
    } else {
        seq!['?'] + pairs_text(params)
    }
}

/// Writes the parameters as a query, in the order given.
pub fn stringify_query(params: &Vec<StringKeyValue>) -> (out: String)
    ensures
        out@ == query_text(params_view(params@)),
{
    let mut buf: Vec<char> = Vec::new();
    let mut i: usize = 0;
    let ghost view = params_view(params@);
    while i < params.len()
        invariant
            i <= params.len(),
            view == params_view(params@),
            buf@ == query_text(view.take(i as int)),
        decreases params.len() - i,
    {
        let ghost before_buf = buf@;
        if i == 0 {
            buf.push('?');
        } else {
            buf.push('&');
        }
        let pair = &params[i];
        let name = url_encode(pair.name.as_str());
        push_text(&mut buf, name.as_str());
        if !pair.value.as_str().is_empty() {
            buf.push('=');
            let value = url_encode(pair.value.as_str());
            push_text(&mut buf, value.as_str());
        }
        proof {
            let now = view.take(i + 1);
            assert(now.drop_last() =~= view.take(i as int));
            assert(now.last() == pair@);
            assert(pair.value@.len() == 0 <==> pair@.value.len() == 0);
            if i == 0 {
                assert(before_buf =~= Seq::empty());
                assert(buf@ =~= seq!['?'] + pair_text(pair@));
            } else {
                assert(buf@ =~= before_buf + seq!['&'] + pair_text(pair@));
                assert(before_buf == seq!['?'] + pairs_text(view.take(i as int)));
                assert(buf@ =~= seq!['?'] + pairs_text(now));
            }
        }
        i += 1;
    }
    assert(view.take(params@.len() as int) =~= view);
    string_of(&buf)
}

/// Whether no two parameters have the same name.
pub open spec fn distinct_names(params: Seq<KeyValue>) -> bool {
    forall|i: int, j: int|
        0 <= i < j < params.len() ==> (#[trigger] params[i]).name != (#[trigger] params[j]).name
}

/// Whether each parameter's name comes strictly before the next one's.
pub open spec fn strictly_sorted(params: Seq<KeyValue>) -> bool {
    forall|i: int, j: int|
        0 <= i < j < params.len() ==> lex_lt(
            (#[trigger] params[i]).name,
            (#[trigger] params[j]).name,
        )
}

spec fn insert_position(sorted: Seq<KeyValue>, p: KeyValue) -> int
    decreases sorted.len(),
{
    if sorted.len() == 0 {
        0
    } else if lex_lt(p.name, sorted.last().name) {
        insert_position(sorted.drop_last(), p)
    } else {
        sorted.len() as int
    }
}

proof fn lemma_insert_position(sorted: Seq<KeyValue>, p: KeyValue)
    ensures
        0 <= insert_position(sorted, p) <= sorted.len(),
        forall|j: int|
            insert_position(sorted, p) <= j < sorted.len() ==> lex_lt(
                p.name,
                (#[trigger] sorted[j]).name,
            ),
        insert_position(sorted, p) > 0 ==> !lex_lt(
            p.name,
            sorted[insert_position(sorted, p) - 1].name,
        ),
    decreases sorted.len(),
{
    if sorted.len() == 0 {
    } else if lex_lt(p.name, sorted.last().name) {
        let front = sorted.drop_last();
        lemma_insert_position(front, p);
        let k = insert_position(front, p);
        assert forall|j: int| k <= j < sorted.len() implies lex_lt(
            p.name,
            (#[trigger] sorted[j]).name,
        ) by {
            if j < front.len() {
                assert(sorted[j] == front[j]);
            }
        }
        if k > 0 {
            assert(sorted[k - 1] == front[k - 1]);
        }
    } else {
    }
}

proof fn lemma_insert_strict(sorted: Seq<KeyValue>, p: KeyValue)
    requires
        strictly_sorted(sorted),
        forall|i: int| 0 <= i < sorted.len() ==> (#[trigger] sorted[i]).name != p.name,
    ensures
        strictly_sorted(insert_param(sorted, p)),
{
    lemma_insert_position(sorted, p);
    let k = insert_position(sorted, p);
    lemma_insert_param_at(sorted, p, k);
    let out = insert_param(sorted, p);
    assert(out =~= sorted.take(k).push(p) + sorted.skip(k));
    assert forall|i: int, j: int| 0 <= i < j < out.len() implies lex_lt(
        (#[trigger] out[i]).name,
        (#[trigger] out[j]).name,
    ) by {
        if j < k {
            assert(out[i] == sorted[i] && out[j] == sorted[j]);
        } else if j == k {
            assert(out[i] == sorted[i]);
            assert(out[j] == p);
            crate::text::lemma_lex_total(sorted[k - 1].name, p.name);
            if i < k - 1 {
                crate::text::lemma_lex_transitive(sorted[i].name, sorted[k - 1].name, p.name);
            }
        } else if i < k {
            assert(out[i] == sorted[i] && out[j] == sorted[j - 1]);
        } else if i == k {
            assert(out[i] == p && out[j] == sorted[j - 1]);
        } else {
            assert(out[i] == sorted[i - 1] && out[j] == sorted[j - 1]);
        }
    }
}

/// Sorting parameters of different names puts each name strictly before
/// the next.
pub proof fn lemma_sorted_params_strict(params: Seq<KeyValue>)
    requires
        distinct_names(params),
    ensures
        strictly_sorted(sorted_params(params)),
    decreases params.len(),
{
    broadcast use vstd::seq_lib::group_to_multiset_ensures;

    if params.len() > 0 {
        let front = params.drop_last();
        let p = params.last();
        assert forall|i: int, j: int| 0 <= i < j < front.len() implies (#[trigger] front[i]).name
            != (#[trigger] front[j]).name by {
            assert(front[i] == params[i] && front[j] == params[j]);
        }
        lemma_sorted_params_strict(front);
        lemma_sorted_params(front);
        let sorted = sorted_params(front);
        assert forall|i: int| 0 <= i < sorted.len() implies (#[trigger] sorted[i]).name
            != p.name by {
            assert(sorted.contains(sorted[i]));
            assert(front.to_multiset().count(sorted[i]) > 0);
            assert(front.contains(sorted[i]));
            let m = choose|m: int| 0 <= m < front.len() && front[m] == sorted[i];
            assert(params[m] == front[m]);
            assert(params[params.len() - 1] == p);
        }
        lemma_insert_strict(sorted, p);
    }
}

/// Two lists that hold the same parameters, each with names strictly in
/// order, are the same list.
pub proof fn lemma_strictly_sorted_unique(a: Seq<KeyValue>, b: Seq<KeyValue>)
    requires
        strictly_sorted(a),
        strictly_sorted(b),
        a.to_multiset() == b.to_multiset(),
    ensures
        a == b,
    decreases a.len(),
{
    broadcast use vstd::seq_lib::group_to_multiset_ensures;

    vstd::seq_lib::to_multiset_len(a);
    vstd::seq_lib::to_multiset_len(b);
    assert(a.len() == b.len());
    if a.len() == 0 {
        assert(a =~= b);
    } else {
        let n = a.len() as int;
        let la = a.last();
        let lb = b.last();
        assert(a.contains(lb)) by {
            assert(b.contains(lb));
            assert(b.to_multiset().count(lb) > 0);
        }
        assert(b.contains(la)) by {
            assert(a.contains(la));
            assert(a.to_multiset().count(la) > 0);
        }
        let i = choose|i: int| 0 <= i < a.len() && a[i] == lb;
        let j = choose|j: int| 0 <= j < b.len() && b[j] == la;
        if la != lb {
            assert(i < n - 1);
            assert(j < n - 1);
            assert(lex_lt(a[i].name, a[n - 1].name));
            assert(lex_lt(b[j].name, b[n - 1].name));
            crate::text::lemma_lex_transitive(la.name, lb.name, la.name);
            crate::text::lemma_lex_irreflexive(la.name);
        }
        let fa = a.drop_last();
        let fb = b.drop_last();
        assert(a =~= fa.push(la));
        assert(b =~= fb.push(lb));
        assert(fa.to_multiset() =~= fb.to_multiset()) by {
            assert(a.to_multiset() =~= fa.to_multiset().insert(la));
            assert(b.to_multiset() =~= fb.to_multiset().insert(la));
            assert forall|x: KeyValue| fa.to_multiset().count(x) == fb.to_multiset().count(
                x,
            ) by {
                assert(fa.to_multiset().insert(la).count(x) == fb.to_multiset().insert(la).count(
                    x,
                ));
            }
        }
        assert forall|i: int, j: int| 0 <= i < j < fa.len() implies lex_lt(
            (#[trigger] fa[i]).name,
            (#[trigger] fa[j]).name,
        ) by {
            assert(fa[i] == a[i] && fa[j] == a[j]);
        }
        assert forall|i: int, j: int| 0 <= i < j < fb.len() implies lex_lt(
            (#[trigger] fb[i]).name,
            (#[trigger] fb[j]).name,
        ) by {
            assert(fb[i] == b[i] && fb[j] == b[j]);
        }
        lemma_strictly_sorted_unique(fa, fb);
    }
}

/// The order in which parameters of different names are given does not
/// matter: two lists that hold the same parameters sort to the same list.
pub proof fn lemma_sorted_params_canonical(a: Seq<KeyValue>, b: Seq<KeyValue>)
    requires
        distinct_names(a),
        distinct_names(b),
        a.to_multiset() == b.to_multiset(),
    ensures
        sorted_params(a) == sorted_params(b),
{
    lemma_sorted_params(a);
    lemma_sorted_params(b);
    lemma_sorted_params_strict(a);
    lemma_sorted_params_strict(b);
    lemma_strictly_sorted_unique(sorted_params(a), sorted_params(b));
}

/// The file extension that stands for a media type; `.txt` for one that is
/// not known.
pub open spec fn ext_of_mime(mime: Seq<char>) -> Seq<char> {
    if mime == "text/javascript"@ {
        ".js"@
    } else if mime == "text/markdown"@ {
        ".mdx"@
    } else if mime == "text/css"@ {
        ".css"@
    } else if mime == "application/json"@ {
        ".json"@
    } else if mime == "application/wasm"@ {
        ".wasm"@
    } else if mime == "image/png"@ {
        ".png"@
    } else if mime == "image/jpeg"@ {
        ".jpg"@
    } else if mime == "image/svg+xml"@ {
        ".svg"@
    } else {
        ".txt"@
    }
}

/// The file extension that stands for a media type.
pub fn get_ext_from_mime(ext: &str) -> (out: &'static str)
    ensures
        out@ == ext_of_mime(ext@),
{
    if same(ext, "text/javascript") {
        ".js"
    } else if same(ext, "text/markdown") {
        ".mdx"
    } else if same(ext, "text/css") {
        ".css"
    } else if same(ext, "application/json") {
        ".json"
    } else if same(ext, "application/wasm") {
        ".wasm"
    } else if same(ext, "image/png") {
        ".png"
    } else if same(ext, "image/jpeg") {
        ".jpg"
    } else if same(ext, "image/svg+xml") {
        ".svg"
    } else {
        ".txt"
    }
}

/// Whether the extension is one of a script: `.js`, `.cjs`, `.mjs`, `.jsx`,
/// `.ts`, `.cts`, `.mts`, `.tsx`.
pub open spec fn is_script_ext(ext: Seq<char>) -> bool {
    ||| ext == ".js"@
    ||| ext == ".cjs"@
    ||| ext == ".mjs"@
    ||| ext == ".jsx"@
    ||| ext == ".ts"@
    ||| ext == ".cts"@
    ||| ext == ".mts"@
    ||| ext == ".tsx"@
}

/// The media type of a file extension; `text/plain` for one that is not
/// known.
pub open spec fn mime_of_ext(ext: Seq<char>) -> Seq<char> {
    if is_script_ext(ext) {
        "text/javascript"@
    } else if ext == ".mdx"@ {
        "text/markdown"@
    } else if ext == ".css"@ {
        "text/css"@
    } else if ext == ".json"@ {
        "application/json"@
    } else if ext == ".wasm"@ {
        "application/wasm"@
    } else if ext == ".png"@ {
        "image/png"@
    } else if ext == ".jpg"@ {
        "image/jpeg"@
    } else if ext == ".svg"@ {
        "image/svg+xml"@
    } else {
        "text/plain"@
    }
}

/// The media type of a file extension.
pub fn get_mime_from_ext(ext: &str) -> (out: &'static str)
    ensures
        out@ == mime_of_ext(ext@),
{
    if same(ext, ".js") || same(ext, ".cjs") || same(ext, ".mjs") || same(ext, ".jsx") || same(
        ext,
        ".ts",
    ) || same(ext, ".cts") || same(ext, ".mts") || same(ext, ".tsx") {
        "text/javascript"
    } else if same(ext, ".mdx") {
        "text/markdown"
    } else if same(ext, ".css") {
        "text/css"
    } else if same(ext, ".json") {
        "application/json"
    } else if same(ext, ".wasm") {
        "application/wasm"
    } else if same(ext, ".png") {
        "image/png"
    } else if same(ext, ".jpg") {
        "image/jpeg"
    } else if same(ext, ".svg") {
        "image/svg+xml"
    } else {
        "text/plain"
    }
}

/// Whether content of this media type is bytes rather than text: every type
/// but those that begin with `text/`, and `application/json`.
pub open spec fn is_binary_mime(mime: Seq<char>) -> bool {
    !starts_with(mime, "text/"@) && mime != "application/json"@
}

/// Whether content of this media type is bytes rather than text.
pub fn is_binary_mime_type(mime_type: &str) -> (out: bool)
    ensures
        out == is_binary_mime(mime_type@),
{
    let chars = chars_of(mime_type);
    let text = chars_of("text/");
    !begins_with(&chars, &text) && !same(mime_type, "application/json")
}

/// Position of the last `c` in `s`, or -1 where there is none.
pub open spec fn last_index_of(s: Seq<char>, c: char) -> int
    decreases s.len(),
{
    if s.len() == 0 {
        -1
    } else if s.last() == c {
        s.len() - 1
    } else {
        last_index_of(s.drop_last(), c)
    }
}

/// The extension of a path: the text from its last `.` on, where that `.`
/// is neither the first character nor behind a `/` and something follows it;
/// else nothing.
pub open spec fn extension_of(s: Seq<char>) -> Seq<char> {
    let i = last_index_of(s, '.');
    if 1 <= i && i + 1 < s.len() && s[i - 1] != '/' {
        s.skip(i)
    } else {
        Seq::empty()
    }
}

fn find_last_char(s: &Vec<char>, c: char) -> (out: Option<usize>)
    ensures
        match out {
            Some(i) => i as int == last_index_of(s@, c) && i < s.len(),
            None => last_index_of(s@, c) == -1,
        },
{
    let mut n: usize = s.len();
    assert(s@.take(n as int) =~= s@);
    while n > 0
        invariant
            n <= s.len(),
            last_index_of(s@, c) == last_index_of(s@.take(n as int), c),
        decreases n,
    {
        if s[n - 1] == c {
            return Some(n - 1);
        }
        assert(s@.take(n as int).drop_last() =~= s@.take(n - 1));
        n -= 1;
    }
    None
}

/// The extension of a path, with its `.`; empty where the path has none.
pub fn get_extension(str: &str) -> (out: String)
    ensures
        out@ == extension_of(str@),
{
    let chars = chars_of(str);
    match find_last_char(&chars, '.') {
        Some(i) => {
            if 1 <= i && i + 1 < chars.len() && chars[i - 1] != '/' {
                let ext = slice_chars(&chars, i, chars.len());
                assert(ext@ =~= chars@.skip(i as int));
                return string_of(&ext);
            }
        },
        None => {},
    }
    String::new()
}

/// Whether a slug keeps the character: a lower-case ASCII letter or a digit.
pub open spec fn is_slug_char(c: char) -> bool {
    'a' <= c <= 'z' || '0' <= c <= '9'
}

/// A text with every run of characters that a slug does not keep replaced
/// by one `-`.
pub open spec fn dashed(s: Seq<char>) -> Seq<char>
    decreases s.len(),
{
    if s.len() == 0 {
        Seq::empty()
    } else if is_slug_char(s.last()) {
        dashed(s.drop_last()).push(s.last())
    } else if s.len() >= 2 && !is_slug_char(s[s.len() - 2]) {
        dashed(s.drop_last())
    } else {
        dashed(s.drop_last()).push('-')
    }
}

/// The slug of a text: its lower-case form, with every run of characters
/// other than lower-case ASCII letters and digits replaced by one `-`.
pub open spec fn slug_of(s: Seq<char>) -> Seq<char> {
    dashed(lowercased(s))
}

/// The slug of a text.
pub fn to_slug(str: &str) -> (out: String)
    ensures
        out@ == slug_of(str@),
{
    let lower = lowercase(str);
    let chars = chars_of(lower.as_str());
    let mut buf: Vec<char> = Vec::new();
    let mut i: usize = 0;
    assert(chars@.take(0) =~= Seq::empty());
    while i < chars.len()
        invariant
            i <= chars.len(),
            buf@ == dashed(chars@.take(i as int)),
        decreases chars.len() - i,
    {
        let c = chars[i];
        let keep = ('a' <= c && c <= 'z') || ('0' <= c && c <= '9');
        proof {
            let now = chars@.take(i + 1);
            assert(now.drop_last() =~= chars@.take(i as int));
            assert(now.last() == c);
            if i > 0 {
                assert(now[now.len() - 2] == chars@[i - 1]);
            }
        }
        if keep {
            buf.push(c);
        } else {
            let first_of_run = if i == 0 {
                true
            } else {
                let p = chars[i - 1];
                ('a' <= p && p <= 'z') || ('0' <= p && p <= '9')
            };
            if first_of_run {
                buf.push('-');
            }
        }
        i += 1;
    }
    assert(chars@.take(chars@.len() as int) =~= chars@);
    string_of(&buf)
}

/// Two lists taken in turn: the first of one, the first of the other, the
/// second of one, and so on; once the shorter list has run out, the rest of
/// the longer one follows.
pub open spec fn interlaced<T>(a: Seq<T>, b: Seq<T>) -> Seq<T> {
    Seq::new(
        a.len() + b.len(),
        |k: int|
            {
                let m = if a.len() <= b.len() {
                    a.len() as int
                } else {
                    b.len() as int
                };
                if k < 2 * m {
                    if k % 2 == 0 {
                        a[k / 2]
                    } else {
                        b[k / 2]
                    }
                } else if a.len() > b.len() {
                    a[k - m]
                } else {
                    b[k - m]
                }
            },
    )
}

/// Takes two lists in turn. Each item of the result is a clone of the item
/// that `interlaced` names.
pub fn interlace_vectors<T: Clone>(vec1: Vec<T>, vec2: Vec<T>) -> (out: Vec<T>)
    ensures
        out@.len() == vec1@.len() + vec2@.len(),
        forall|k: int|
            0 <= k < out@.len() ==> cloned::<T>(
                #[trigger] interlaced(vec1@, vec2@)[k],
                out@[k],
            ),
{
    let mut result: Vec<T> = Vec::new();
    let length1 = vec1.len();
    let length2 = vec2.len();
    let max_length = if length1 > length2 {
        length1
    } else {
        length2
    };
    let mut i: usize = 0;
    while i < max_length
        invariant
            i <= max_length,
            length1 == vec1@.len(),
            length2 == vec2@.len(),
            max_length == if length1 > length2 {
                length1
            } else {
                length2
            },
            result@.len() == (if i <= length1 {
                i
            } else {
                length1
            }) + (if i <= length2 {
                i
            } else {
                length2
            }),
            forall|k: int|
                0 <= k < result@.len() ==> cloned::<T>(
                    #[trigger] interlaced(vec1@, vec2@)[k],
                    result@[k],
                ),
        decreases max_length - i,
    {
        if i < length1 {
            let ghost at = result@.len() as int;
            let item = vec1[i].clone();
            result.push(item);
            assert(interlaced(vec1@, vec2@)[at] == vec1@[i as int]);
        }
        if i < length2 {
            let ghost at = result@.len() as int;
            let item = vec2[i].clone();
            result.push(item);
            assert(interlaced(vec1@, vec2@)[at] == vec2@[i as int]);
        }
        i += 1;
    }
    result
}

/// The number of line feeds in a text.
pub fn count_newlines(s: &str) -> (out: usize)
    ensures
        out == newline_count(s@),
{
    let chars = chars_of(s);
    let mut count: usize = 0;
    let mut i: usize = 0;
    assert(chars@.take(0) =~= Seq::empty());
    while i < chars.len()
        invariant
            i <= chars.len(),
            count == newline_count(chars@.take(i as int)),
            count <= i,
        decreases chars.len() - i,
    {
        assert(chars@.take(i + 1).drop_last() =~= chars@.take(i as int));
        if chars[i] == '\n' {
            count += 1;
        }
        i += 1;
    }
    assert(chars@.take(chars@.len() as int) =~= chars@);
    count
}

/// The kind of a locator as JSON.
pub open spec fn kind_json(kind: ModuleLocatorKind) -> Seq<char> {
    match kind {
        ModuleLocatorKind::File => "\"File\""@,
        ModuleLocatorKind::Internal => "\"Internal\""@,
        ModuleLocatorKind::External => "\"External\""@,
    }
}

/// A parameter as JSON: an object of its name and its value.
pub open spec fn param_json(p: KeyValue) -> Seq<char> {
    "{\"name\":"@ + json_quoted(p.name) + ",\"value\":"@ + json_quoted(p.value) + "}"@
}

/// Parameters as JSON, with `,` between them.
pub open spec fn params_json(params: Seq<KeyValue>) -> Seq<char>
    decreases params.len(),
{
    if params.len() == 0 {
        Seq::empty()
    } else if params.len() == 1 {
        param_json(params[0])
    } else {
        params_json(params.drop_last()) + ","@ + param_json(params.last())
    }
}

/// A locator as JSON: an object of its URL, kind, specifier and parameters,
/// in this order, without white space.
pub open spec fn locator_json(l: LocatorView) -> Seq<char> {
    "{\"url\":"@ + json_quoted(l.url) + ",\"kind\":"@ + kind_json(l.kind) + ",\"specifier\":"@
        + json_quoted(l.specifier) + ",\"params\":["@ + params_json(l.params) + "]}"@
}

/// Writes a locator as JSON.
pub fn locator_to_json(locator: &ModuleLocator) -> (out: String)
    ensures
        out@ == locator_json(locator@),
{
    let mut buf: Vec<char> = Vec::new();
    push_text(&mut buf, "{\"url\":");
    push_text(&mut buf, json_quote(locator.url.as_str()).as_str());
    push_text(&mut buf, ",\"kind\":");
    match locator.kind {
        ModuleLocatorKind::File => {
            push_text(&mut buf, "\"File\"");
        },
        ModuleLocatorKind::Internal => {
            push_text(&mut buf, "\"Internal\"");
        },
        ModuleLocatorKind::External => {
            push_text(&mut buf, "\"External\"");
        },
    }
    push_text(&mut buf, ",\"specifier\":");
    push_text(&mut buf, json_quote(locator.specifier.as_str()).as_str());
    push_text(&mut buf, ",\"params\":[");
    let ghost head = buf@;
    let ghost view = params_view(locator.params@);
    let mut i: usize = 0;
    assert(buf@ =~= head + params_json(view.take(0)));
    while i < locator.params.len()
        invariant
            i <= locator.params.len(),
            view == params_view(locator.params@),
            buf@ == head + params_json(view.take(i as int)),
        decreases locator.params.len() - i,
    {
        let ghost before_buf = buf@;
        if i > 0 {
            push_text(&mut buf, ",");
        }
        let p = &locator.params[i];
        push_text(&mut buf, "{\"name\":");
        push_text(&mut buf, json_quote(p.name.as_str()).as_str());
        push_text(&mut buf, ",\"value\":");
        push_text(&mut buf, json_quote(p.value.as_str()).as_str());
        push_text(&mut buf, "}");
        proof {
            let now = view.take(i + 1);
            assert(now.drop_last() =~= view.take(i as int));
            assert(now.last() == p@);
            if i == 0 {
                assert(params_json(view.take(0)) =~= Seq::empty());
                assert(buf@ =~= head + param_json(p@));
            } else {
                assert(buf@ =~= before_buf + ","@ + param_json(p@));
                assert(buf@ =~= head + params_json(now));
            }
        }
        i += 1;
    }
    assert(view.take(locator.params@.len() as int) =~= view);
    push_text(&mut buf, "]}");
    string_of(&buf)
}

/// What the path of a generated module needs besides the locator.
pub struct GetLocatorVirtualPathOpts<'a> {
    pub mime_type: &'a str,
    pub generated_module_folder: &'a Option<String>,
}

/// The file name of a generated module: the SHA-1 digest of the locator's
/// JSON in hexadecimal, and the extension of the media type.
pub open spec fn hash_name(l: LocatorView, mime: Seq<char>) -> Seq<char> {
    hex_lower(sha1_of(locator_json(l))) + ext_of_mime(mime)
}

/// The path that a module has among the traversed modules. A module with a
/// file and without parameters has the path of its file. A module with a
/// file and with parameters stands beside its file, under its generated
/// name. A module without a file stands in the folder of generated modules,
/// under its generated name. There is no path where the directory it needs
/// is lacking.
pub open spec fn virtual_path_spec(
    roots: Map<Seq<char>, Seq<char>>,
    l: LocatorView,
    mime: Seq<char>,
    folder: Option<Seq<char>>,
) -> Option<Seq<char>> {
    match physical_path_spec(roots, l) {
        Some(p) => if l.params.len() == 0 {
            Some(p)
        } else {
            match parent_path(p) {
                Some(d) => Some(joined(d, hash_name(l, mime))),
                None => None,
            }
        },
        None => match folder {
            Some(f) => Some(joined(f, hash_name(l, mime))),
            None => None,
        },
    }
}

/// The path that a module has among the traversed modules.
pub fn get_locator_virtual_path(
    project: &Project,
    locator: &ModuleLocator,
    opts: GetLocatorVirtualPathOpts,
) -> (out: Option<String>)
    ensures
        out is Some == virtual_path_spec(
            project.roots(),
            locator@,
            opts.mime_type@,
            match *opts.generated_module_folder {
                Some(f) => Some(f@),
                None => None,
            },
        ) is Some,
        out is Some ==> out->0@ == virtual_path_spec(
            project.roots(),
            locator@,
            opts.mime_type@,
            match *opts.generated_module_folder {
                Some(f) => Some(f@),
                None => None,
            },
        )->0,
{
    let json = locator_to_json(locator);
    let digest = sha1_digest(json.as_str());
    let mut name = chars_of(hex_encode(&digest).as_str());
    push_text(&mut name, get_ext_from_mime(opts.mime_type));
    let name = string_of(&name);
    assert(params_view(locator.params@).len() == locator.params@.len());
    match locator.physical_path(project) {
        Some(p) => {
            if locator.params.len() == 0 {
                Some(p)
            } else {
                match dirname(p.as_str()) {
                    Some(d) => Some(join(d.as_str(), name.as_str())),
                    None => None,
                }
            }
        },
        None => match opts.generated_module_folder {
            Some(f) => Some(join(f.as_str(), name.as_str())),
            None => None,
        },
    }
}

} // verus!
