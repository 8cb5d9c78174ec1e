//! Documents: their headings, and the scripts that are made of them.

use crate::encoding::{json_quote, json_quoted};
use crate::text::{chars_of, push_text, same, string_of};
use crate::types::{canonical_url, ModuleLocator, OnTransformResult};
use crate::utils::errors::CompilationError;
use crate::utils::{slug_of, to_slug};
use vstd::prelude::*;

verus! {

/// The failed result of one message.
pub fn transform_result_err_from_string(message: String) -> (out: OnTransformResult)
    ensures
        out.dependencies@.len() == 0,
        out.result is Err,
        out.result->Err_0.is_single(message@, Seq::empty()),
{
    OnTransformResult {
        result: Err(CompilationError::from_string(message)),
        dependencies: Vec::new(),
    }
}

/// The level of a heading, by the name of its element: 1 for `h1` up to 5
/// for `h5`; none for any other element.
pub open spec fn heading_level(tag: Seq<char>) -> Option<u32> {
    if tag == "h1"@ {
        Some(1u32)
    } else if tag == "h2"@ {
        Some(2u32)
    } else if tag == "h3"@ {
        Some(3u32)
    } else if tag == "h4"@ {
        Some(4u32)
    } else if tag == "h5"@ {
        Some(5u32)
    } else {
        None
    }
}

/// The level of a heading, by the name of its element.
pub fn get_element_heading_level(tag_name: &str) -> (out: Option<u32>)
    ensures
        out == heading_level(tag_name@),
{
    if same(tag_name, "h1") {
        Some(1)
    } else if same(tag_name, "h2") {
        Some(2)
    } else if same(tag_name, "h3") {
        Some(3)
    } else if same(tag_name, "h4") {
        Some(4)
    } else if same(tag_name, "h5") {
        Some(5)
    } else {
        None
    }
}

/// An element at the top of a document: its name and the text in it.
#[derive(Clone, Debug, PartialEq, Eq)]
pub struct TopElement {
    pub tag_name: String,
    pub text: String,
}

/// A heading of a document: its level, its text, and the identifier that
/// is made of its text.
#[derive(Clone, Debug, PartialEq, Eq)]
pub struct Heading {
    pub level: u32,
    pub id: String,
    pub name: String,
}

/// What a `Heading` stands for.
pub struct HeadingView {
    pub level: u32,
    pub id: Seq<char>,
    pub name: Seq<char>,
}

impl View for Heading {
    type V = HeadingView;

    open spec fn view(&self) -> HeadingView {
        HeadingView { level: self.level, id: self.id@, name: self.name@ }
    }
}

/// The headings of a list, each taken by its view.
pub open spec fn headings_view(headings: Seq<Heading>) -> Seq<HeadingView> {
    headings.map_values(|h: Heading| h@)
}

/// The headings among the top elements of a document, in their order: each
/// with its level, its text, and the slug of its text as identifier.
pub open spec fn headings_of(elements: Seq<TopElement>) -> Seq<HeadingView>
    decreases elements.len(),
{
    if elements.len() == 0 {
        Seq::empty()
    } else {
        let front = headings_of(elements.drop_last());
        let last = elements.last();
        match heading_level(last.tag_name@) {
            Some(level) => front.push(
                HeadingView { level, id: slug_of(last.text@), name: last.text@ },
            ),
            None => front,
        }
    }
}

/// The headings among the top elements of a document. The element of each
/// gets the heading's identifier as its `id`.
pub fn collect_headings(elements: &Vec<TopElement>) -> (out: Vec<Heading>)
    ensures
        headings_view(out@) == headings_of(elements@),
{
    let mut out: Vec<Heading> = Vec::new();
    let mut i: usize = 0;
    assert(elements@.take(0) =~= Seq::empty());
    assert(headings_view(out@) =~= Seq::empty());
    while i < elements.len()
        invariant
            i <= elements.len(),
            headings_view(out@) == headings_of(elements@.take(i as int)),
        decreases elements.len() - i,
    {
        let e = &elements[i];
        proof {
            assert(elements@.take(i + 1).drop_last() =~= elements@.take(i as int));
            assert(elements@.take(i + 1).last() == *e);
        }
        match get_element_heading_level(e.tag_name.as_str()) {
            Some(level) => {
                let h = Heading { level, id: to_slug(e.text.as_str()), name: e.text.clone() };
                assert(headings_view(out@.push(h)) =~= headings_view(out@).push(h@));
                out.push(h);
            },
            None => {},
        }
        i += 1;
    }
    assert(elements@.take(elements@.len() as int) =~= elements@);
    out
}

/// The script of a compiled document: the compiled code, and the metadata
/// as the export `meta`.
pub open spec fn mdx_script(compiled: Seq<char>, meta: Seq<char>) -> Seq<char> {
    compiled + "\nexport const meta = "@ + meta + ";\n"@
}

/// The script of a compiled document, from its compiled code and its
/// metadata as JSON. It goes through the script pass next.
pub fn transform_mdx(compiled: &str, meta: &str) -> (out: String)
    ensures
        out@ == mdx_script(compiled@, meta@),
{
    let mut buf = chars_of(compiled);
    push_text(&mut buf, "\nexport const meta = ");
    push_text(&mut buf, meta);
    push_text(&mut buf, ";\n");
    string_of(&buf)
}

/// The script of the metadata of a document: the metadata as the export
/// `meta`, and a function `fetch` that imports the document itself, by the
/// URL of its locator without parameters.
pub open spec fn mdx_meta_script(meta: Seq<char>, locator: ModuleLocator) -> Seq<char> {
    "export const meta = "@ + meta
        + ";\n\nexport async function fetch() {\n    const {default: MDXContent} = await import("@
        + json_quoted(canonical_url(locator.kind, locator.specifier@, Seq::empty()))
        + ");\n    return MDXContent;\n}\n"@
}

/// The script of the metadata of a document, from its metadata as JSON. It
/// goes through the script pass next.
pub fn transform_mdx_meta(meta: &str, locator: &ModuleLocator) -> (out: String)
    ensures
        out@ == mdx_meta_script(meta@, *locator),
{
    let url = json_quote(locator.without_query().url.as_str());
    let mut buf = chars_of("export const meta = ");
    push_text(&mut buf, meta);
    push_text(
        &mut buf,
        ";\n\nexport async function fetch() {\n    const {default: MDXContent} = await import(",
    );
    push_text(&mut buf, url.as_str());
    push_text(&mut buf, ");\n    return MDXContent;\n}\n");
    string_of(&buf)
}

/// An entry of a table of contents: a heading, and the headings below it.
#[derive(Debug, PartialEq, Eq)]
pub struct TableOfContent {
    pub id: String,
    pub name: String,
    pub children: Vec<TableOfContent>,
}

/// What a `TableOfContent` stands for.
pub struct TocView {
    pub id: Seq<char>,
    pub name: Seq<char>,
    pub children: Seq<TocView>,
}

/// An entry of a table of contents, by its view.
pub open spec fn toc_view(t: TableOfContent) -> TocView
    decreases t,
{
    TocView {
        id: t.id@,
        name: t.name@,
        children: Seq::new(
            t.children@.len(),
            |i: int|
                if 0 <= i < t.children@.len() {
                    toc_view(t.children@[i])
                } else {
                    arbitrary()
                },
        ),
    }
}

/// The entries of a list, each taken by its view.
pub open spec fn tocs_view(entries: Seq<TableOfContent>) -> Seq<TocView> {
    Seq::new(entries.len(), |i: int| toc_view(entries[i]))
}

/// The entry that begins at a position of a list of headings, together
/// with the position behind it, where the heading there is at least `depth`
/// deep: the entry of that heading, with the entries below it, which are the
/// headings that follow and lie deeper than it. There is none at the end of
/// the list, nor where the heading is less than `depth` deep.
pub open spec fn tree_at(input: Seq<HeadingView>, pos: int, depth: int) -> Option<(TocView, int)>
    decreases input.len() - pos, 0int,
{
    if pos < 0 || pos >= input.len() || input[pos].level < depth {
        None
    } else {
        let below = trees_at(input, pos + 1, input[pos].level + 1);
        Some((TocView { id: input[pos].id, name: input[pos].name, children: below.0 }, below.1))
    }
}

/// The entries that begin at a position of a list of headings, one behind
/// the other, as long as the headings are at least `depth` deep, together
/// with the position behind them.
pub open spec fn trees_at(input: Seq<HeadingView>, pos: int, depth: int) -> (Seq<TocView>, int)
    decreases input.len() - pos, 1int,
{
    match tree_at(input, pos, depth) {
        Some(first) => if pos < first.1 <= input.len() {
            let rest = trees_at(input, first.1, depth);
            (seq![first.0] + rest.0, rest.1)
        } else {
            (seq![first.0], first.1)
        },
        None => (Seq::empty(), pos),
    }
}

fn build_tree(input: &Vec<Heading>, pos: usize, depth: u64) -> (out: (
    Option<TableOfContent>,
    usize,
))
    ensures
        match tree_at(headings_view(input@), pos as int, depth as int) {
            Some(found) => out.0 is Some && toc_view(out.0->0) == found.0 && out.1 == found.1
                && pos < out.1 <= input.len(),
            None => out.0 is None && out.1 == pos,
        },
    decreases input.len() - pos,
{
    let ghost view = headings_view(input@);
    if pos >= input.len() || (input[pos].level as u64) < depth {
        return (None, pos);
    }
    let below = input[pos].level as u64 + 1;
    let mut children: Vec<TableOfContent> = Vec::new();
    let mut next: usize = pos + 1;
    let ghost mut kids: Seq<TocView> = Seq::empty();
    proof {
        assert(view[pos as int] == input@[pos as int]@);
        assert(kids + trees_at(view, next as int, below as int).0 =~= trees_at(
            view,
            pos + 1,
            below as int,
        ).0);
    }
    loop
        invariant_except_break
            pos < next <= input.len(),
            view == headings_view(input@),
            kids.len() == children@.len(),
            forall|i: int| 0 <= i < kids.len() ==> toc_view(#[trigger] children@[i]) == kids[i],
            kids + trees_at(view, next as int, below as int).0 == trees_at(
                view,
                pos + 1,
                below as int,
            ).0,
            trees_at(view, next as int, below as int).1 == trees_at(
                view,
                pos + 1,
                below as int,
            ).1,
        ensures
            pos < next <= input.len(),
            kids.len() == children@.len(),
            forall|i: int| 0 <= i < kids.len() ==> toc_view(#[trigger] children@[i]) == kids[i],
            kids == trees_at(view, pos + 1, below as int).0,
            next == trees_at(view, pos + 1, below as int).1,
        decreases input.len() - next,
    {
        let (child, after) = build_tree(input, next, below);
        match child {
            Some(c) => {
                proof {
                    let first = tree_at(view, next as int, below as int)->0;
                    let rest = trees_at(view, after as int, below as int);
                    assert(trees_at(view, next as int, below as int).0 == seq![first.0] + rest.0);
                    assert(kids.push(toc_view(c)) + rest.0 =~= kids + (seq![first.0] + rest.0));
                    kids = kids.push(toc_view(c));
                }
                children.push(c);
                next = after;
            },
            None => {
                proof {
                    assert(trees_at(view, next as int, below as int).0 =~= Seq::empty());
                    assert(kids + Seq::<TocView>::empty() =~= kids);
                }
                break ;
            },
        }
    }
    let out = TableOfContent {
        id: input[pos].id.clone(),
        name: input[pos].name.clone(),
        children,
    };
    proof {
        assert(toc_view(out).children =~= kids);
    }
    (Some(out), next)
}

/// The tree of a list of headings that is not empty: the entry of the
/// first heading, with the entries below it.
pub open spec fn tree_of(input: Seq<HeadingView>) -> TocView {
    match tree_at(input, 0, input[0].level as int) {
        Some(found) => found.0,
        None => arbitrary(),
    }
}

/// The tree of a list of headings: the entry of the first heading, with
/// the entries below it. An empty list has none.
pub fn flat_to_tree(input: &Vec<Heading>) -> (out: Option<TableOfContent>)
    ensures
        out is Some == (input@.len() > 0),
        out is Some ==> toc_view(out->0) == tree_of(headings_view(input@)),
{
    if input.len() == 0 {
        return None;
    }
    assert(headings_view(input@)[0] == input@[0]@);
    build_tree(input, 0, input[0].level as u64).0
}

/// The list of headings that begins with the heading of the document
/// itself: at level 0, without identifier and name.
pub open spec fn with_document(headings: Seq<HeadingView>) -> Seq<HeadingView> {
    seq![HeadingView { level: 0, id: Seq::empty(), name: Seq::empty() }] + headings
}

/// The table of contents of a document: the entries of its headings, each
/// with the entries of the headings that follow it and lie deeper.
pub fn get_table_of_content(elements: &Vec<TopElement>) -> (out: Vec<TableOfContent>)
    ensures
        tocs_view(out@) == tree_of(with_document(headings_of(elements@))).children,
{
    let found = collect_headings(elements);
    let mut headings: Vec<Heading> = Vec::new();
    headings.push(Heading { level: 0, id: String::new(), name: String::new() });
    let mut i: usize = 0;
    while i < found.len()
        invariant
            i <= found.len(),
            headings_view(headings@) == with_document(headings_view(found@).take(i as int)),
        decreases found.len() - i,
    {
        let h = Heading {
            level: found[i].level,
            id: found[i].id.clone(),
            name: found[i].name.clone(),
        };
        proof {
            assert(h@ == found@[i as int]@);
            assert(headings_view(headings@.push(h)) =~= headings_view(headings@).push(h@));
            assert(with_document(headings_view(found@).take(i + 1)) =~= with_document(
                headings_view(found@).take(i as int),
            ).push(h@));
        }
        headings.push(h);
        i += 1;
    }
    assert(headings_view(found@).take(found@.len() as int) =~= headings_view(found@));
    match flat_to_tree(&headings) {
        Some(tree) => {
            assert(tocs_view(tree.children@) =~= toc_view(tree).children);
            tree.children
        },
        None => Vec::new(),
    }
}

} // verus!
