//! JSON as the bundle writes it: keys in order, four spaces for each level
//! of nesting.

use crate::encoding::{json_quote, json_quoted};
use crate::text::{chars_of, push_text, string_of};
use crate::types::{Position, Span};
use crate::utils::errors::{CompilationError, Diagnostic, DiagnosticView, Highlight};
use vstd::prelude::*;

verus! {

/// The decimal digit for a value below ten.
pub open spec fn digit(d: nat) -> char {
    (0x30 + d) as u8 as char
}

/// A number in decimal.
pub open spec fn decimal(n: nat) -> Seq<char>
    decreases n,
{
    if n < 10 {
        seq![digit(n)]
    } else {
        decimal(n / 10).push(digit(n % 10))
    }
}

/// Writes a number in decimal.
pub fn write_decimal(n: u32) -> (out: Vec<char>)
    ensures
        out@ == decimal(n as nat),
    decreases n,
{
    if n < 10 {
        let mut out: Vec<char> = Vec::new();
        out.push((0x30u8 + n as u8) as char);
        assert(out@ =~= seq![digit(n as nat)]);
        out
    } else {
        let mut out = write_decimal(n / 10);
        out.push((0x30u8 + (n % 10) as u8) as char);
        out
    }
}

/// The white space that begins a line at a level of nesting: four spaces
/// for each level.
pub open spec fn indent(level: nat) -> Seq<char>
    decreases level,
{
    if level == 0 {
        Seq::empty()
    } else {
        indent((level - 1) as nat) + "    "@
    }
}

fn push_indent(buf: &mut Vec<char>, level: u8)
    ensures
        final(buf)@ == old(buf)@ + indent(level as nat),
{
    let mut i: u8 = 0;
    assert(buf@ =~= old(buf)@ + indent(0));
    while i < level
        invariant
            i <= level,
            buf@ == old(buf)@ + indent(i as nat),
        decreases level - i,
    {
        push_text(buf, "    ");
        assert(buf@ =~= old(buf)@ + (indent(i as nat) + "    "@));
        i += 1;
    }
}

/// One entry of an object: a key, and the value as it is written.
pub struct Entry {
    pub key: String,
    pub value: String,
}

/// What an `Entry` stands for.
pub struct EntryView {
    pub key: Seq<char>,
    pub value: Seq<char>,
}

impl View for Entry {
    type V = EntryView;

    open spec fn view(&self) -> EntryView {
        EntryView { key: self.key@, value: self.value@ }
    }
}

/// The entries of a list, each taken by its view.
pub open spec fn entries_view(entries: Seq<Entry>) -> Seq<EntryView> {
    entries.map_values(|e: Entry| e@)
}

/// One entry on its line: the white space of its level, the key as a JSON
/// string, `: `, and the value.
pub open spec fn entry_line(e: EntryView, level: nat) -> Seq<char> {
    indent(level) + json_quoted(e.key) + ": "@ + e.value
}

/// The entries of an object, each on its line, with `,` between them.
pub open spec fn entry_lines(entries: Seq<EntryView>, level: nat) -> Seq<char>
    decreases entries.len(),
{
    if entries.len() == 0 {
        Seq::empty()
    } else if entries.len() == 1 {
        entry_line(entries[0], level)
    } else {
        entry_lines(entries.drop_last(), level) + ",\n"@ + entry_line(entries.last(), level)
    }
}

/// An object at a level of nesting: `{}` where it is empty, else its
/// entries one level deeper, each on its line, between `{` and `}`.
pub open spec fn object_text(entries: Seq<EntryView>, level: nat) -> Seq<char> {
    if entries.len() == 0 {
        "{}"@
    } else {
        "{\n"@ + entry_lines(entries, level + 1) + "\n"@ + indent(level) + "}"@
    }
}

/// Writes an object at a level of nesting.
pub fn write_object(entries: &Vec<Entry>, level: u8) -> (out: String)
    requires
        level < 200,
    ensures
        out@ == object_text(entries_view(entries@), level as nat),
{
    if entries.len() == 0 {
        return "{}".to_owned();
    }
    let ghost view = entries_view(entries@);
    let mut buf = chars_of("{\n");
    let ghost head = buf@;
    let mut i: usize = 0;
    assert(buf@ =~= head + entry_lines(view.take(0), (level + 1) as nat));
    while i < entries.len()
        invariant
            i <= entries.len(),
            level < 200,
            view == entries_view(entries@),
            buf@ == head + entry_lines(view.take(i as int), (level + 1) as nat),
        decreases entries.len() - i,
    {
        let ghost was = buf@;
        if i > 0 {
            push_text(&mut buf, ",\n");
        }
        let e = &entries[i];
        push_indent(&mut buf, level + 1);
        push_text(&mut buf, json_quote(e.key.as_str()).as_str());
        push_text(&mut buf, ": ");
        push_text(&mut buf, e.value.as_str());
        proof {
            let now = view.take(i + 1);
            assert(now.drop_last() =~= view.take(i as int));
            assert(now.last() == e@);
            let line = entry_line(e@, (level + 1) as nat);
            if i == 0 {
                assert(entry_lines(view.take(0), (level + 1) as nat) =~= Seq::empty());
                assert(buf@ =~= head + line);
            } else {
                assert(buf@ =~= was + ",\n"@ + line);
                assert(buf@ =~= head + entry_lines(now, (level + 1) as nat));
            }
        }
        i += 1;
    }
    assert(view.take(entries@.len() as int) =~= view);
    push_text(&mut buf, "\n");
    push_indent(&mut buf, level);
    push_text(&mut buf, "}");
    string_of(&buf)
}

/// The texts of a list of strings.
pub open spec fn items_view(items: Seq<String>) -> Seq<Seq<char>> {
    items.map_values(|t: String| t@)
}

/// The items of an array, each on its line, with `,` between them.
pub open spec fn item_lines(items: Seq<Seq<char>>, level: nat) -> Seq<char>
    decreases items.len(),
{
    if items.len() == 0 {
        Seq::empty()
    } else if items.len() == 1 {
        indent(level) + items[0]
    } else {
        item_lines(items.drop_last(), level) + ",\n"@ + indent(level) + items.last()
    }
}

/// An array at a level of nesting: `[]` where it is empty, else its items
/// one level deeper, each on its line, between `[` and `]`.
pub open spec fn array_text(items: Seq<Seq<char>>, level: nat) -> Seq<char> {
    if items.len() == 0 {
        "[]"@
    } else {
        "[\n"@ + item_lines(items, level + 1) + "\n"@ + indent(level) + "]"@
    }
}

/// Writes an array at a level of nesting.
pub fn write_array(items: &Vec<String>, level: u8) -> (out: String)
    requires
        level < 200,
    ensures
        out@ == array_text(items_view(items@), level as nat),
{
    if items.len() == 0 {
        return "[]".to_owned();
    }
    let ghost view = items_view(items@);
    let mut buf = chars_of("[\n");
    let ghost head = buf@;
    let mut i: usize = 0;
    assert(buf@ =~= head + item_lines(view.take(0), (level + 1) as nat));
    while i < items.len()
        invariant
            i <= items.len(),
            level < 200,
            view == items_view(items@),
            buf@ == head + item_lines(view.take(i as int), (level + 1) as nat),
        decreases items.len() - i,
    {
        let ghost was = buf@;
        if i > 0 {
            push_text(&mut buf, ",\n");
        }
        push_indent(&mut buf, level + 1);
        push_text(&mut buf, items[i].as_str());
        proof {
            let now = view.take(i + 1);
            assert(now.drop_last() =~= view.take(i as int));
            assert(now.last() == items@[i as int]@);
            if i == 0 {
                assert(item_lines(view.take(0), (level + 1) as nat) =~= Seq::empty());
                assert(buf@ =~= head + (indent((level + 1) as nat) + items@[i as int]@));
            } else {
                assert(buf@ =~= was + ",\n"@ + indent((level + 1) as nat) + items@[i as int]@);
                assert(buf@ =~= head + item_lines(now, (level + 1) as nat));
            }
        }
        i += 1;
    }
    assert(view.take(items@.len() as int) =~= view);
    push_text(&mut buf, "\n");
    push_indent(&mut buf, level);
    push_text(&mut buf, "]");
    string_of(&buf)
}

/// A text that may be absent: as a JSON string, or `null`.
pub open spec fn optional_text_json(text: Option<Seq<char>>) -> Seq<char> {
    match text {
        Some(t) => json_quoted(t),
        None => "null"@,
    }
}

/// Writes a text that may be absent.
pub fn write_optional_text(text: &Option<String>) -> (out: String)
    ensures
        out@ == optional_text_json(
            match *text {
                Some(t) => Some(t@),
                None => None,
            },
        ),
{
    match text {
        Some(t) => json_quote(t.as_str()),
        None => "null".to_owned(),
    }
}

/// An entry of a key and a value.
pub open spec fn entry(key: Seq<char>, value: Seq<char>) -> EntryView {
    EntryView { key, value }
}

pub fn make_entry(key: &str, value: String) -> (out: Entry)
    ensures
        out@ == entry(key@, value@),
{
    Entry { key: key.to_owned(), value }
}

/// A position as JSON: an object of its column and its row.
pub open spec fn position_json(p: Position, level: nat) -> Seq<char> {
    object_text(
        seq![entry("col"@, decimal(p.col as nat)), entry("row"@, decimal(p.row as nat))],
        level,
    )
}

/// Writes a position.
pub fn write_position(p: &Position, level: u8) -> (out: String)
    requires
        level < 200,
    ensures
        out@ == position_json(*p, level as nat),
{
    let mut entries: Vec<Entry> = Vec::new();
    entries.push(make_entry("col", string_of(&write_decimal(p.col))));
    entries.push(make_entry("row", string_of(&write_decimal(p.row))));
    assert(entries_view(entries@) =~= seq![
        entry("col"@, decimal(p.col as nat)),
        entry("row"@, decimal(p.row as nat)),
    ]);
    write_object(&entries, level)
}

/// A span as JSON: an object of its end and its start.
pub open spec fn span_json(s: Span, level: nat) -> Seq<char> {
    object_text(
        seq![
            entry("end"@, position_json(s.end, level + 1)),
            entry("start"@, position_json(s.start, level + 1)),
        ],
        level,
    )
}

/// Writes a span.
pub fn write_span(s: &Span, level: u8) -> (out: String)
    requires
        level < 199,
    ensures
        out@ == span_json(*s, level as nat),
{
    let mut entries: Vec<Entry> = Vec::new();
    entries.push(make_entry("end", write_position(&s.end, level + 1)));
    entries.push(make_entry("start", write_position(&s.start, level + 1)));
    assert(entries_view(entries@) =~= seq![
        entry("end"@, position_json(s.end, (level + 1) as nat)),
        entry("start"@, position_json(s.start, (level + 1) as nat)),
    ]);
    write_object(&entries, level)
}

/// A highlight as JSON: an object of its label, source, span and subject,
/// each `null` where it is absent.
pub open spec fn highlight_json(h: Highlight, level: nat) -> Seq<char> {
    object_text(
        seq![
            entry("label"@, optional_text_json(crate::actions::batch::text_view(h.label))),
            entry("source"@, optional_text_json(crate::actions::batch::text_view(h.source))),
            entry(
                "span"@,
                match h.span {
                    Some(s) => span_json(s, level + 1),
                    None => "null"@,
                },
            ),
            entry("subject"@, optional_text_json(crate::actions::batch::text_view(h.subject))),
        ],
        level,
    )
}

/// Writes a highlight.
pub fn write_highlight(h: &Highlight, level: u8) -> (out: String)
    requires
        level < 198,
    ensures
        out@ == highlight_json(*h, level as nat),
{
    let mut entries: Vec<Entry> = Vec::new();
    entries.push(make_entry("label", write_optional_text(&h.label)));
    entries.push(make_entry("source", write_optional_text(&h.source)));
    let span = match &h.span {
        Some(s) => write_span(s, level + 1),
        None => "null".to_owned(),
    };
    entries.push(make_entry("span", span));
    entries.push(make_entry("subject", write_optional_text(&h.subject)));
    assert(entries_view(entries@) =~= seq![
        entry("label"@, optional_text_json(crate::actions::batch::text_view(h.label))),
        entry("source"@, optional_text_json(crate::actions::batch::text_view(h.source))),
        entry(
            "span"@,
            match h.span {
                Some(s) => span_json(s, (level + 1) as nat),
                None => "null"@,
            },
        ),
        entry("subject"@, optional_text_json(crate::actions::batch::text_view(h.subject))),
    ]);
    write_object(&entries, level)
}

/// The highlights of a list, each as JSON.
pub open spec fn highlight_items(highlights: Seq<Highlight>, level: nat) -> Seq<Seq<char>> {
    highlights.map_values(|h: Highlight| highlight_json(h, level))
}

/// A diagnostic as JSON: an object of its highlights and its message.
pub open spec fn diagnostic_json(message: Seq<char>, highlights: Seq<Highlight>, level: nat) -> Seq<
    char,
> {
    object_text(
        seq![
            entry("highlights"@, array_text(highlight_items(highlights, level + 2), level + 1)),
            entry("message"@, json_quoted(message)),
        ],
        level,
    )
}

/// Writes a diagnostic.
pub fn write_diagnostic(d: &Diagnostic, level: u8) -> (out: String)
    requires
        level < 190,
    ensures
        out@ == diagnostic_json(d.message@, d.highlights@, level as nat),
{
    let mut items: Vec<String> = Vec::new();
    let mut i: usize = 0;
    assert(items_view(items@) =~= highlight_items(d.highlights@.take(0), (level + 2) as nat));
    while i < d.highlights.len()
        invariant
            i <= d.highlights.len(),
            level < 190,
            items_view(items@) == highlight_items(
                d.highlights@.take(i as int),
                (level + 2) as nat,
            ),
        decreases d.highlights.len() - i,
    {
        let item = write_highlight(&d.highlights[i], level + 2);
        proof {
            assert(items_view(items@.push(item)) =~= items_view(items@).push(item@));
            assert(highlight_items(d.highlights@.take(i + 1), (level + 2) as nat)
                =~= highlight_items(d.highlights@.take(i as int), (level + 2) as nat).push(
                item@,
            ));
        }
        items.push(item);
        i += 1;
    }
    assert(d.highlights@.take(d.highlights@.len() as int) =~= d.highlights@);
    let mut entries: Vec<Entry> = Vec::new();
    entries.push(make_entry("highlights", write_array(&items, level + 1)));
    entries.push(make_entry("message", json_quote(d.message.as_str())));
    assert(entries_view(entries@) =~= seq![
        entry(
            "highlights"@,
            array_text(highlight_items(d.highlights@, (level + 2) as nat), (level + 1) as nat),
        ),
        entry("message"@, json_quoted(d.message@)),
    ]);
    write_object(&entries, level)
}

/// The diagnostics of a list, each as JSON.
pub open spec fn diagnostic_items(diagnostics: Seq<DiagnosticView>, level: nat) -> Seq<Seq<char>> {
    diagnostics.map_values(|d: DiagnosticView| diagnostic_json(d.message, d.highlights, level))
}

/// An error as JSON: an object of its diagnostics.
pub open spec fn error_json(diagnostics: Seq<DiagnosticView>, level: nat) -> Seq<char> {
    object_text(
        seq![
            entry("diagnostics"@, array_text(diagnostic_items(diagnostics, level + 2), level + 1)),
        ],
        level,
    )
}

/// Writes an error.
pub fn write_error(e: &CompilationError, level: u8) -> (out: String)
    requires
        level < 180,
    ensures
        out@ == error_json(e@, level as nat),
{
    let ghost view = e@;
    let mut items: Vec<String> = Vec::new();
    let mut i: usize = 0;
    assert(items_view(items@) =~= diagnostic_items(view.take(0), (level + 2) as nat));
    while i < e.diagnostics.len()
        invariant
            i <= e.diagnostics.len(),
            level < 180,
            view == e@,
            items_view(items@) == diagnostic_items(view.take(i as int), (level + 2) as nat),
        decreases e.diagnostics.len() - i,
    {
        let item = write_diagnostic(&e.diagnostics[i], level + 2);
        proof {
            assert(view[i as int] == e.diagnostics@[i as int]@);
            assert(items_view(items@.push(item)) =~= items_view(items@).push(item@));
            assert(diagnostic_items(view.take(i + 1), (level + 2) as nat) =~= diagnostic_items(
                view.take(i as int),
                (level + 2) as nat,
            ).push(item@));
        }
        items.push(item);
        i += 1;
    }
    assert(view.take(e.diagnostics@.len() as int) =~= view);
    let mut entries: Vec<Entry> = Vec::new();
    entries.push(make_entry("diagnostics", write_array(&items, level + 1)));
    assert(entries_view(entries@) =~= seq![
        entry(
            "diagnostics"@,
            array_text(diagnostic_items(view, (level + 2) as nat), (level + 1) as nat),
        ),
    ]);
    write_object(&entries, level)
}

} // verus!
