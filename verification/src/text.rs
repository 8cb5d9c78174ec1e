//! Character-level helpers shared by the parsers and printers of this crate.
//!
//! Strings are modelled by their view, a `Seq<char>`. Executable code works on
//! `Vec<char>` buffers and converts at the edges.

use vstd::prelude::*;

verus! {

/// The characters of `s`, in order.
pub fn chars_of(s: &str) -> (out: Vec<char>)
    ensures
        out@ == s@,
{
    let mut out: Vec<char> = Vec::new();
    for c in it: s.chars()
        invariant
            it.seq() == s@,
            out@.len() == it.index(),
            forall|j: int| 0 <= j < out@.len() ==> out@[j] == it.seq()[j],
    {
        out.push(c);
    }
    assert(out@ =~= s@);
    out
}

/// Trusted: `String::from_iter` over the characters of a vector yields the
/// string made of exactly those characters, in order.
#[verifier::external_body]
pub(crate) fn string_of(chars: &Vec<char>) -> (out: String)
    ensures
        out@ == chars@,
{
    String::from_iter(chars)
}

/// Whether two string slices hold the same characters.
pub fn same(a: &str, b: &str) -> (r: bool)
    ensures
        r == (a@ == b@),
{
    a.to_owned() == b.to_owned()
}

/// Appends the characters of `more` to `buf`.
pub fn push_chars(buf: &mut Vec<char>, more: &Vec<char>)
    ensures
        final(buf)@ == old(buf)@ + more@,
{
    let mut i: usize = 0;
    while i < more.len()
        invariant
            i <= more.len(),
            buf@ == old(buf)@ + more@.take(i as int),
        decreases more.len() - i,
    {
        buf.push(more[i]);
        i += 1;
    }
    assert(more@.take(more@.len() as int) =~= more@);
}

/// Appends the characters of `more` to `buf`.
pub fn push_text(buf: &mut Vec<char>, more: &str)
    ensures
        final(buf)@ == old(buf)@ + more@,
{
    let chars = chars_of(more);
    push_chars(buf, &chars);
}

/// The characters of `s` from `from` up to, not including, `to`.
pub fn slice_chars(s: &Vec<char>, from: usize, to: usize) -> (out: Vec<char>)
    requires
        from <= to <= s.len(),
    ensures
        out@ == s@.subrange(from as int, to as int),
{
    let mut out: Vec<char> = Vec::new();
    let mut i: usize = from;
    while i < to
        invariant
            from <= i <= to <= s.len(),
            out@ == s@.subrange(from as int, i as int),
        decreases to - i,
    {
        out.push(s[i]);
        i += 1;
    }
    out
}

/// Position of the first character of `s` that meets `pred`, or the length
/// of `s` where none does.
pub open spec fn index_where(s: Seq<char>, pred: spec_fn(char) -> bool) -> int
    decreases s.len(),
{
    if s.len() == 0 {
        0
    } else if pred(s[0]) {
        0
    } else {
        1 + index_where(s.drop_first(), pred)
    }
}

/// `index_where` yields the first position whose character meets `pred`.
pub proof fn lemma_index_where(s: Seq<char>, pred: spec_fn(char) -> bool)
    ensures
        0 <= index_where(s, pred) <= s.len(),
        forall|j: int| 0 <= j < index_where(s, pred) ==> !pred(#[trigger] s[j]),
        index_where(s, pred) < s.len() ==> pred(s[index_where(s, pred)]),
    decreases s.len(),
{
    if s.len() == 0 {
    } else if pred(s[0]) {
    } else {
        let t = s.drop_first();
        lemma_index_where(t, pred);
        assert forall|j: int| 0 <= j < index_where(s, pred) implies !pred(#[trigger] s[j]) by {
            if j > 0 {
                assert(s[j] == t[j - 1]);
            }
        }
        if index_where(t, pred) < t.len() {
            assert(s[index_where(s, pred)] == t[index_where(t, pred)]);
        }
    }
}

/// A position `k` that is the first to meet `pred` is `index_where(s, pred)`.
pub proof fn lemma_index_where_unique(s: Seq<char>, pred: spec_fn(char) -> bool, k: int)
    requires
        0 <= k <= s.len(),
        forall|j: int| 0 <= j < k ==> !pred(#[trigger] s[j]),
        k < s.len() ==> pred(s[k]),
    ensures
        index_where(s, pred) == k,
{
    lemma_index_where(s, pred);
    let i = index_where(s, pred);
    if i < k {
        assert(pred(s[i]));
    } else if k < i {
        assert(!pred(s[k]));
    }
}

/// Position of the first `c` in `s`, or the length of `s` where there is
/// none.
pub open spec fn index_of(s: Seq<char>, c: char) -> int {
    index_where(s, is_char(c))
}

/// The test "is `c`".
pub open spec fn is_char(c: char) -> spec_fn(char) -> bool {
    |x: char| x == c
}

/// The test "is `a` or `b`".
pub open spec fn is_either(a: char, b: char) -> spec_fn(char) -> bool {
    |x: char| x == a || x == b
}

/// Position of the first `c` in `s`, or the length of `s` where there is
/// none.
pub fn find_char(s: &Vec<char>, c: char) -> (k: usize)
    ensures
        k as int == index_of(s@, c),
        k <= s.len(),
{
    let mut i: usize = 0;
    while i < s.len() && s[i] != c
        invariant
            i <= s.len(),
            forall|j: int| 0 <= j < i ==> s@[j] != c,
        decreases s.len() - i,
    {
        i += 1;
    }
    proof {
        lemma_index_where_unique(s@, is_char(c), i as int);
    }
    i
}

/// Position of the first `a` or `b` in `s`, or the length of `s` where there
/// is neither.
pub fn find_either(s: &Vec<char>, a: char, b: char) -> (k: usize)
    ensures
        k as int == index_where(s@, is_either(a, b)),
        k <= s.len(),
{
    let mut i: usize = 0;
    while i < s.len() && s[i] != a && s[i] != b
        invariant
            i <= s.len(),
            forall|j: int| 0 <= j < i ==> s@[j] != a && s@[j] != b,
        decreases s.len() - i,
    {
        i += 1;
    }
    proof {
        lemma_index_where_unique(s@, is_either(a, b), i as int);
    }
    i
}

/// Whether `s` begins with `prefix`.
pub open spec fn starts_with(s: Seq<char>, prefix: Seq<char>) -> bool {
    prefix.len() <= s.len() && s.take(prefix.len() as int) == prefix
}

/// Whether `s` ends with `suffix`.
pub open spec fn ends_with(s: Seq<char>, suffix: Seq<char>) -> bool {
    suffix.len() <= s.len() && s.skip(s.len() - suffix.len()) == suffix
}

/// Whether `part` occurs in `s` at position `at`.
pub open spec fn occurs_at(s: Seq<char>, part: Seq<char>, at: int) -> bool {
    0 <= at && at + part.len() <= s.len() && s.subrange(at, at + part.len()) == part
}

/// Whether `part` occurs somewhere in `s`.
pub open spec fn contains_text(s: Seq<char>, part: Seq<char>) -> bool {
    exists|at: int| occurs_at(s, part, at)
}

/// Whether `part` occurs in `s` at position `at`.
pub fn has_at(s: &Vec<char>, part: &Vec<char>, at: usize) -> (r: bool)
    ensures
        r == occurs_at(s@, part@, at as int),
{
    if part.len() > s.len() || at > s.len() - part.len() {
        return false;
    }
    let mut i: usize = 0;
    while i < part.len()
        invariant
            i <= part.len(),
            at + part.len() <= s.len(),
            forall|j: int| 0 <= j < i ==> s@[at + j] == part@[j],
        decreases part.len() - i,
    {
        if s[at + i] != part[i] {
            proof {
                let sub = s@.subrange(at as int, at + part@.len());
                assert(sub[i as int] == s@[at + i]);
            }
            return false;
        }
        i += 1;
    }
    assert(s@.subrange(at as int, at + part@.len()) =~= part@);
    true
}

/// Whether `s` begins with `prefix`.
pub fn begins_with(s: &Vec<char>, prefix: &Vec<char>) -> (r: bool)
    ensures
        r == starts_with(s@, prefix@),
{
    let r = has_at(s, prefix, 0);
    proof {
        if prefix@.len() <= s@.len() {
            assert(s@.take(prefix@.len() as int) =~= s@.subrange(0, 0 + prefix@.len() as int));
        }
    }
    r
}

/// Whether `s` ends with `suffix`.
pub fn finishes_with(s: &Vec<char>, suffix: &Vec<char>) -> (r: bool)
    ensures
        r == ends_with(s@, suffix@),
{
    if suffix.len() > s.len() {
        return false;
    }
    let at = s.len() - suffix.len();
    let r = has_at(s, suffix, at);
    proof {
        assert(s@.skip(s@.len() - suffix@.len()) =~= s@.subrange(
            at as int,
            at + suffix@.len(),
        ));
    }
    r
}

/// Whether `part` occurs somewhere in `s`.
pub fn includes(s: &Vec<char>, part: &Vec<char>) -> (r: bool)
    ensures
        r == contains_text(s@, part@),
{
    if part.len() > s.len() {
        return false;
    }
    let last = s.len() - part.len();
    let mut at: usize = 0;
    loop
        invariant
            at <= last,
            last == s.len() - part.len(),
            forall|j: int| 0 <= j < at ==> !occurs_at(s@, part@, j),
        decreases last - at,
    {
        if has_at(s, part, at) {
            return true;
        }
        if at == last {
            return false;
        }
        at += 1;
    }
}

/// The code point of `c`.
pub open spec fn code_point(c: char) -> u32 {
    c as u32
}

/// Different characters have different code points.
pub proof fn lemma_code_point_injective(x: char, y: char)
    requires
        x != y,
    ensures
        code_point(x) != code_point(y),
{
    vstd::utf8::char_u32_cast(x, x as u32);
    vstd::utf8::char_u32_cast(y, y as u32);
}

/// Whether `a` comes strictly before `b` when both are compared character by
/// character, by code point; a proper prefix comes before what extends it.
pub open spec fn lex_lt(a: Seq<char>, b: Seq<char>) -> bool
    decreases a.len(),
{
    if b.len() == 0 {
        false
    } else if a.len() == 0 {
        true
    } else if a[0] != b[0] {
        code_point(a[0]) < code_point(b[0])
    } else {
        lex_lt(a.drop_first(), b.drop_first())
    }
}

/// No text comes before itself.
pub proof fn lemma_lex_irreflexive(a: Seq<char>)
    ensures
        !lex_lt(a, a),
    decreases a.len(),
{
    if a.len() > 0 {
        lemma_lex_irreflexive(a.drop_first());
    }
}

/// Of two different texts exactly one comes before the other.
pub proof fn lemma_lex_total(a: Seq<char>, b: Seq<char>)
    ensures
        a != b ==> (lex_lt(a, b) <==> !lex_lt(b, a)),
        a == b ==> !lex_lt(a, b) && !lex_lt(b, a),
    decreases a.len(),
{
    if a == b {
        lemma_lex_irreflexive(a);
    } else if a.len() == 0 || b.len() == 0 {
        if a.len() == 0 && b.len() == 0 {
            assert(a =~= b);
        }
    } else if a[0] != b[0] {
        lemma_code_point_injective(a[0], b[0]);
    } else {
        let ta = a.drop_first();
        let tb = b.drop_first();
        if ta == tb {
            assert(a =~= seq![a[0]] + ta);
            assert(b =~= seq![b[0]] + tb);
        }
        lemma_lex_total(ta, tb);
    }
}

/// The order is transitive.
pub proof fn lemma_lex_transitive(a: Seq<char>, b: Seq<char>, c: Seq<char>)
    requires
        lex_lt(a, b),
        lex_lt(b, c),
    ensures
        lex_lt(a, c),
    decreases a.len(),
{
    if a.len() == 0 {
    } else if a[0] != b[0] {
    } else if b[0] != c[0] {
    } else {
        lemma_lex_transitive(a.drop_first(), b.drop_first(), c.drop_first());
    }
}

/// Whether `a` comes strictly before `b` in the order of `lex_lt`.
pub fn before(a: &Vec<char>, b: &Vec<char>) -> (r: bool)
    ensures
        r == lex_lt(a@, b@),
{
    let mut i: usize = 0;
    assert(a@.skip(0) =~= a@ && b@.skip(0) =~= b@);
    while i < a.len() && i < b.len()
        invariant
            i <= a.len(),
            i <= b.len(),
            lex_lt(a@, b@) == lex_lt(a@.skip(i as int), b@.skip(i as int)),
        decreases a.len() - i,
    {
        let x = a[i];
        let y = b[i];
        proof {
            let sa = a@.skip(i as int);
            let sb = b@.skip(i as int);
            assert(sa[0] == x && sb[0] == y);
            assert(sa.drop_first() =~= a@.skip(i + 1));
            assert(sb.drop_first() =~= b@.skip(i + 1));
        }
        if x != y {
            return (x as u32) < (y as u32);
        }
        i += 1;
    }
    i < b.len()
}

/// The number of line feeds in `s`.
pub open spec fn newline_count(s: Seq<char>) -> nat
    decreases s.len(),
{
    if s.len() == 0 {
        0
    } else {
        newline_count(s.drop_last()) + if s.last() == '\n' {
            1nat
        } else {
            0nat
        }
    }
}

/// Whether two buffers hold the same characters.
pub fn same_chars(a: &Vec<char>, b: &Vec<char>) -> (r: bool)
    ensures
        r == (a@ == b@),
{
    if a.len() != b.len() {
        return false;
    }
    let mut i: usize = 0;
    while i < a.len()
        invariant
            i <= a.len(),
            a.len() == b.len(),
            forall|j: int| 0 <= j < i ==> a@[j] == b@[j],
        decreases a.len() - i,
    {
        if a[i] != b[i] {
            return false;
        }
        i += 1;
    }
    assert(a@ =~= b@);
    true
}

} // verus!
