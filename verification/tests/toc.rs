use esfuse::transforms::mdx::{
    flat_to_tree, get_table_of_content, Heading, TableOfContent, TopElement,
};

fn h(level: u32, name: &str) -> Heading {
    Heading { level, id: name.to_lowercase(), name: name.to_string() }
}

fn node(name: &str, children: Vec<TableOfContent>) -> TableOfContent {
    TableOfContent { id: name.to_lowercase(), name: name.to_string(), children }
}

#[test]
fn empty_list_has_no_tree() {
    assert_eq!(flat_to_tree(&vec![]), None);
}

#[test]
fn single_heading_is_a_leaf() {
    assert_eq!(flat_to_tree(&vec![h(2, "A")]), Some(node("A", vec![])));
}

#[test]
fn deeper_headings_nest() {
    let tree = flat_to_tree(&vec![
        h(0, "Doc"),
        h(1, "A"),
        h(2, "A1"),
        h(3, "A1x"),
        h(2, "A2"),
        h(1, "B"),
        h(3, "B-deep"),
        h(2, "B2"),
    ]);
    assert_eq!(
        tree,
        Some(node(
            "Doc",
            vec![
                node("A", vec![node("A1", vec![node("A1x", vec![])]), node("A2", vec![])]),
                node("B", vec![node("B-deep", vec![]), node("B2", vec![])]),
            ]
        ))
    );
}

#[test]
fn tree_ends_at_a_heading_above_the_first() {
    let tree = flat_to_tree(&vec![h(2, "A"), h(3, "A1"), h(1, "Up"), h(2, "Lost")]);
    assert_eq!(tree, Some(node("A", vec![node("A1", vec![])])));
}

#[test]
fn heading_of_the_same_level_is_not_below() {
    let tree = flat_to_tree(&vec![h(1, "A"), h(1, "B")]);
    assert_eq!(tree, Some(node("A", vec![])));
    let tree = flat_to_tree(&vec![h(1, "A"), h(2, "B"), h(2, "C")]);
    assert_eq!(tree, Some(node("A", vec![node("B", vec![]), node("C", vec![])])));
}

#[test]
fn deepest_level_does_not_overflow() {
    let tree = flat_to_tree(&vec![h(u32::MAX, "A"), h(u32::MAX, "B")]);
    assert_eq!(tree, Some(node("A", vec![])));
}

#[test]
fn table_of_content_of_a_document() {
    let e = |tag: &str, text: &str| TopElement { tag_name: tag.to_string(), text: text.to_string() };
    let toc = get_table_of_content(&vec![
        e("p", "Intro"),
        e("h2", "Install"),
        e("h3", "From source"),
        e("pre", "cargo"),
        e("h1", "Usage"),
        e("h2", "Options"),
    ]);
    let t = |id: &str, name: &str, children: Vec<TableOfContent>| TableOfContent {
        id: id.to_string(),
        name: name.to_string(),
        children,
    };
    assert_eq!(
        toc,
        vec![
            t("install", "Install", vec![t("from-source", "From source", vec![])]),
            t("usage", "Usage", vec![t("options", "Options", vec![])]),
        ]
    );
    assert_eq!(get_table_of_content(&vec![e("p", "no headings")]), vec![]);
    assert_eq!(get_table_of_content(&vec![]), vec![]);
}
