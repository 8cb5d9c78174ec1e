use esfuse::types::{Position, Span};
use esfuse::utils::finder::FileFinder;
use esfuse::utils::json::{
    make_entry, write_array, write_decimal, write_object, write_optional_text, write_position,
    write_span,
};
use esfuse::utils::order::sort_indices;

fn text(chars: Vec<char>) -> String {
    chars.into_iter().collect()
}

#[test]
fn decimal_numbers() {
    assert_eq!(text(write_decimal(0)), "0");
    assert_eq!(text(write_decimal(7)), "7");
    assert_eq!(text(write_decimal(10)), "10");
    assert_eq!(text(write_decimal(1234567890)), "1234567890");
    assert_eq!(text(write_decimal(u32::MAX)), "4294967295");
}

#[test]
fn objects_and_arrays() {
    assert_eq!(write_object(&vec![], 3), "{}");
    assert_eq!(write_array(&vec![], 3), "[]");
    assert_eq!(
        write_object(&vec![make_entry("a\"b", "1".to_string()), make_entry("c", "[]".to_string())], 0),
        "{\n    \"a\\\"b\": 1,\n    \"c\": []\n}"
    );
    assert_eq!(
        write_array(&vec!["1".to_string(), "null".to_string()], 1),
        "[\n        1,\n        null\n    ]"
    );
}

#[test]
fn optional_text() {
    assert_eq!(write_optional_text(&None), "null");
    assert_eq!(write_optional_text(&Some("a\nb".to_string())), "\"a\\nb\"");
}

#[test]
fn positions_and_spans() {
    assert_eq!(
        write_position(&Position { row: 3, col: 14 }, 0),
        "{\n    \"col\": 14,\n    \"row\": 3\n}"
    );
    let span = Span { start: Position { row: 1, col: 2 }, end: Position { row: 3, col: 4 } };
    let value: serde_json::Value = serde_json::from_str(&write_span(&span, 2)).unwrap();
    assert_eq!(value["start"]["row"], 1);
    assert_eq!(value["start"]["col"], 2);
    assert_eq!(value["end"]["row"], 3);
    assert_eq!(value["end"]["col"], 4);
}

#[test]
fn indices_sorted_by_key() {
    let keys: Vec<String> = ["b", "a", "c", "a", ""].iter().map(|k| k.to_string()).collect();
    assert_eq!(sort_indices(&keys), vec![4, 1, 3, 0, 2]);
    assert_eq!(sort_indices(&vec![]), Vec::<usize>::new());
}

#[test]
fn finder_candidates_walk_up_to_the_root() {
    let finder = FileFinder::new("package.json");
    assert_eq!(
        finder.candidates("/work/site/src"),
        vec![
            "/work/site/src/package.json",
            "/work/site/package.json",
            "/work/package.json",
            "/package.json"
        ]
    );
    assert_eq!(finder.candidates("/"), vec!["/package.json"]);
    assert_eq!(finder.candidates("/a/../b/"), vec!["/b/package.json", "/package.json"]);
}

#[test]
fn finder_takes_the_nearest_and_remembers() {
    let mut finder = FileFinder::new("package.json");
    let paths = finder.candidates("/work/site/src");
    assert_eq!(finder.cached("/work/site/src"), None);
    let found = finder.find_file("/work/site/src", &paths, &vec![false, true, true, false]);
    assert_eq!(found, Some("/work/site/package.json".to_string()));
    assert_eq!(finder.cached("/work/site/src"), Some(Some("/work/site/package.json".to_string())));
    let again = finder.find_file("/work/site/src", &paths, &vec![true, true, true, true]);
    assert_eq!(again, Some("/work/site/package.json".to_string()));
    let none = finder.find_file("/other", &finder.candidates("/other"), &vec![false, false]);
    assert_eq!(none, None);
    assert_eq!(finder.cached("/other"), Some(None));
    let short = finder.find_file("/short", &vec!["/short/package.json".to_string()], &vec![]);
    assert_eq!(short, None);
    finder.remember("/other", Some("/package.json".to_string()));
    assert_eq!(finder.cached("/other"), Some(Some("/package.json".to_string())));
}
