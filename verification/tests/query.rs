use esfuse::types::StringKeyValue;
use esfuse::utils::{parse_query, sort_params, split_query, stringify_query};

fn kv(name: &str, value: &str) -> StringKeyValue {
    StringKeyValue { name: name.to_string(), value: value.to_string() }
}

#[test]
fn split_query_at_first_question_mark() {
    assert_eq!(split_query("a/b?x=1?y"), ("a/b".to_string(), Some("x=1?y".to_string())));
    assert_eq!(split_query("a/b"), ("a/b".to_string(), None));
    assert_eq!(split_query("a/b?"), ("a/b".to_string(), Some(String::new())));
    assert_eq!(split_query("?q"), (String::new(), Some("q".to_string())));
    assert_eq!(split_query(""), (String::new(), None));
}

#[test]
fn parse_query_empty_has_no_params() {
    assert_eq!(parse_query(""), vec![]);
}

#[test]
fn parse_query_lone_question_mark_is_one_empty_param() {
    assert_eq!(parse_query("?"), vec![kv("", "")]);
}

#[test]
fn parse_query_splits_pairs_and_sorts() {
    assert_eq!(parse_query("?b=2&a=1"), vec![kv("a", "1"), kv("b", "2")]);
    assert_eq!(parse_query("b=2&a=1"), vec![kv("a", "1"), kv("b", "2")]);
}

#[test]
fn parse_query_value_may_hold_equal_signs() {
    assert_eq!(parse_query("?a=b=c"), vec![kv("a", "b=c")]);
}

#[test]
fn parse_query_pair_without_equal_sign_has_empty_value() {
    assert_eq!(parse_query("?flag&x="), vec![kv("flag", ""), kv("x", "")]);
}

#[test]
fn parse_query_question_mark_separates_too() {
    assert_eq!(parse_query("?b=1?a=2"), vec![kv("a", "2"), kv("b", "1")]);
    assert_eq!(parse_query("??a"), vec![kv("", ""), kv("a", "")]);
}

#[test]
fn parse_query_empty_pieces_are_params() {
    assert_eq!(parse_query("?a&&b"), vec![kv("", ""), kv("a", ""), kv("b", "")]);
    assert_eq!(parse_query("a&"), vec![kv("", ""), kv("a", "")]);
}

#[test]
fn parse_query_undoes_percent_escapes() {
    assert_eq!(parse_query("?a=x%20y"), vec![kv("a", "x y")]);
    assert_eq!(parse_query("?a%3Db=%26"), vec![kv("a=b", "&")]);
    assert_eq!(parse_query("?n=%C3%A9&m=%c3%a9"), vec![kv("m", "\u{e9}"), kv("n", "\u{e9}")]);
}

#[test]
fn parse_query_leaves_what_is_no_escape() {
    assert_eq!(parse_query("?a=%&b=%2&c=%zz&d=%2g&e=+"), vec![
        kv("a", "%"),
        kv("b", "%2"),
        kv("c", "%zz"),
        kv("d", "%2g"),
        kv("e", "+"),
    ]);
    assert_eq!(parse_query("?a=%ff"), vec![kv("a", "%ff")]);
    assert_eq!(parse_query("?a=%%41"), vec![kv("a", "%A")]);
}

#[test]
fn parse_query_sorts_by_decoded_name() {
    assert_eq!(parse_query("?%62=1&a=2"), vec![kv("a", "2"), kv("b", "1")]);
}

#[test]
fn stringify_query_empty() {
    assert_eq!(stringify_query(&vec![]), "");
}

#[test]
fn stringify_query_writes_in_given_order() {
    assert_eq!(stringify_query(&vec![kv("b", "1"), kv("a", "2")]), "?b=1&a=2");
}

#[test]
fn stringify_query_omits_equal_sign_for_empty_value() {
    assert_eq!(stringify_query(&vec![kv("flag", ""), kv("x", "1")]), "?flag&x=1");
    assert_eq!(stringify_query(&vec![kv("", "")]), "?");
}

#[test]
fn stringify_query_percent_encodes() {
    assert_eq!(stringify_query(&vec![kv("a b", "c&d")]), "?a%20b=c%26d");
    assert_eq!(stringify_query(&vec![kv("k", "\u{1F600}")]), "?k=%F0%9F%98%80");
    assert_eq!(stringify_query(&vec![kv("k", "azAZ09-._~")]), "?k=azAZ09-._~");
    assert_eq!(stringify_query(&vec![kv("k", "\u{0}\u{7f}/")]), "?k=%00%7F%2F");
}

#[test]
fn sort_params_is_stable() {
    let sorted = sort_params(&vec![kv("b", "1"), kv("a", "1"), kv("b", "2"), kv("a", "2")]);
    assert_eq!(sorted, vec![kv("a", "1"), kv("a", "2"), kv("b", "1"), kv("b", "2")]);
}

#[test]
fn sort_params_prefix_comes_first() {
    let sorted = sort_params(&vec![kv("ab", ""), kv("a", ""), kv("", "")]);
    assert_eq!(sorted, vec![kv("", ""), kv("a", ""), kv("ab", "")]);
}

#[test]
fn written_query_reads_back() {
    let params = vec![kv("a", "1"), kv("b", ""), kv("c", "x-y"), kv("d e", "&=?%\u{1F600}")];
    assert_eq!(parse_query(&stringify_query(&params)), params);
}
