//! Diagnostics: what went wrong, and where.

use crate::types::{Position, Span};
use vstd::prelude::*;

verus! {

/// A place that a diagnostic points at. Every part may be absent.
#[derive(Debug, PartialEq, Eq)]
pub struct Highlight {
    /// The URL of the source.
    pub source: Option<String>,
    pub subject: Option<String>,
    pub label: Option<String>,
    pub span: Option<Span>,
}

impl Clone for Highlight {
    fn clone(&self) -> (out: Self)
        ensures
            out == *self,
    {
        Highlight {
            source: self.source.clone(),
            subject: self.subject.clone(),
            label: self.label.clone(),
            span: self.span.clone(),
        }
    }
}

impl Highlight {
    /// Whether the highlight says nothing: no source, subject, label or
    /// span.
    pub open spec fn is_blank(&self) -> bool {
        self.source is None && self.subject is None && self.label is None && self.span is None
    }

    /// The highlight of a source and a span, each possibly absent, without
    /// subject or label.
    pub fn at(source: Option<String>, span: Option<Span>) -> (out: Self)
        ensures
            out == (Highlight { source, subject: None, label: None, span }),
    {
        Highlight { source, subject: None, label: None, span }
    }
}

/// A message and the places it points at.
#[derive(Debug, PartialEq, Eq)]
pub struct Diagnostic {
    pub message: String,
    pub highlights: Vec<Highlight>,
}

impl Clone for Diagnostic {
    fn clone(&self) -> (out: Self)
        ensures
            out.message == self.message,
            out.highlights@ == self.highlights@,
    {
        let highlights = self.highlights.clone();
        assert(highlights@ =~= self.highlights@);
        Diagnostic { message: self.message.clone(), highlights }
    }
}

/// Where reading a document failed: a message, and the line and column if
/// they are known.
#[derive(Clone, Debug, PartialEq, Eq)]
pub struct ParseFailure {
    pub message: String,
    pub location: Option<(usize, usize)>,
}

impl Diagnostic {
    /// Whether the diagnostic has the given message and highlights.
    pub open spec fn says(&self, message: Seq<char>, highlights: Seq<Highlight>) -> bool {
        self.message@ == message && self.highlights@ == highlights
    }

    /// The diagnostic of this message, without highlights.
    pub fn from_str(err: &str) -> (out: Self)
        ensures
            out.says(err@, Seq::empty()),
    {
        Self::from_string(err.to_owned())
    }

    /// The diagnostic of this message, with the highlight unless it is blank.
    pub fn from_str_with_highlight(err: &str, highlight: Highlight) -> (out: Self)
        ensures
            out.says(
                err@,
                if highlight.is_blank() {
                    Seq::empty()
                } else {
                    seq![highlight]
                },
            ),
    {
        Self::from_string_with_highlight(err.to_owned(), highlight)
    }

    /// The diagnostic of this message, without highlights.
    pub fn from_string(err: String) -> (out: Self)
        ensures
            out.message == err,
            out.says(err@, Seq::empty()),
    {
        Diagnostic { message: err, highlights: Vec::new() }
    }

    /// The diagnostic of this message, with the highlight unless it is blank.
    pub fn from_string_with_highlight(err: String, highlight: Highlight) -> (out: Self)
        ensures
            out.message == err,
            out.says(
                err@,
                if highlight.is_blank() {
                    Seq::empty()
                } else {
                    seq![highlight]
                },
            ),
    {
        if highlight.source.is_some() || highlight.subject.is_some() || highlight.label.is_some()
            || highlight.span.is_some() {
            let mut highlights: Vec<Highlight> = Vec::new();
            highlights.push(highlight);
            assert(highlights@ =~= seq![highlight]);
            return Diagnostic { message: err, highlights };
        }
        Self::from_string(err)
    }
}

/// The position of a line and a column, each cut down to 32 bits.
pub open spec fn position_of(line: usize, column: usize) -> Position {
    Position { row: line as u32, col: column as u32 }
}

/// The highlight of one point of a source: a span that starts and ends
/// there.
pub open spec fn point_highlight(source: String, line: usize, column: usize) -> Highlight {
    Highlight {
        source: Some(source),
        subject: None,
        label: None,
        span: Some(
            Span { start: position_of(line, column), end: position_of(line, column) },
        ),
    }
}

fn point_of(source: String, line: usize, column: usize) -> (out: Highlight)
    ensures
        out == point_highlight(source, line, column),
{
    Highlight {
        source: Some(source),
        subject: None,
        label: None,
        span: Some(
            Span {
                start: Position {
                    row: #[verifier::truncate]
                    (line as u32),
                    col: #[verifier::truncate]
                    (column as u32),
                },
                end: Position {
                    row: #[verifier::truncate]
                    (line as u32),
                    col: #[verifier::truncate]
                    (column as u32),
                },
            },
        ),
    }
}

impl Diagnostic {
    /// The diagnostic of a failure to read JSON: its message, and one
    /// highlight at its line and column in `source` (line 0, column 0 where
    /// the failure has no location).
    pub fn from_json(err: &ParseFailure, source: String) -> (out: Self)
        ensures
            out.says(
                err.message@,
                seq![
                    match err.location {
                        Some(at) => point_highlight(source, at.0, at.1),
                        None => point_highlight(source, 0, 0),
                    },
                ],
            ),
    {
        let highlight = match err.location {
            Some(at) => point_of(source, at.0, at.1),
            None => point_of(source, 0, 0),
        };
        let mut highlights: Vec<Highlight> = Vec::new();
        highlights.push(highlight);
        assert(highlights@ =~= seq![highlight]);
        Diagnostic { message: err.message.clone(), highlights }
    }

    /// The diagnostic of a failure to read YAML: its message, and a highlight
    /// at its line and column in `source` where the failure has a location.
    pub fn from_yaml(err: &ParseFailure, source: String) -> (out: Self)
        ensures
            out.says(
                err.message@,
                match err.location {
                    Some(at) => seq![point_highlight(source, at.0, at.1)],
                    None => Seq::empty(),
                },
            ),
    {
        let mut highlights: Vec<Highlight> = Vec::new();
        match err.location {
            Some(at) => {
                let highlight = point_of(source, at.0, at.1);
                highlights.push(highlight);
                assert(highlights@ =~= seq![highlight]);
            },
            None => {},
        }
        Diagnostic { message: err.message.clone(), highlights }
    }
}

/// What a failed stage returns: the diagnostics of the failure.
#[derive(Debug, Default, PartialEq, Eq)]
pub struct CompilationError {
    pub diagnostics: Vec<Diagnostic>,
}

/// Copies a list of diagnostics.
pub fn clone_diagnostics(diagnostics: &Vec<Diagnostic>) -> (out: Vec<Diagnostic>)
    ensures
        out@.len() == diagnostics@.len(),
        forall|i: int|
            0 <= i < out@.len() ==> (#[trigger] out@[i]).says(
                diagnostics@[i].message@,
                diagnostics@[i].highlights@,
            ),
{
    let mut out: Vec<Diagnostic> = Vec::new();
    let mut i: usize = 0;
    while i < diagnostics.len()
        invariant
            i <= diagnostics.len(),
            out@.len() == i,
            forall|j: int|
                0 <= j < i ==> (#[trigger] out@[j]).says(
                    diagnostics@[j].message@,
                    diagnostics@[j].highlights@,
                ),
        decreases diagnostics.len() - i,
    {
        out.push(diagnostics[i].clone());
        i += 1;
    }
    out
}

impl Clone for CompilationError {
    fn clone(&self) -> (out: Self)
        ensures
            out.same_as(*self),
    {
        CompilationError { diagnostics: clone_diagnostics(&self.diagnostics) }
    }
}

impl CompilationError {
    /// Whether the error holds exactly one diagnostic, with the given
    /// message and highlights.
    pub open spec fn is_single(&self, message: Seq<char>, highlights: Seq<Highlight>) -> bool {
        self.diagnostics@.len() == 1 && self.diagnostics@[0].says(message, highlights)
    }

    /// Whether two errors hold the same diagnostics: the same messages with
    /// the same highlights, in the same order.
    pub open spec fn same_as(&self, other: CompilationError) -> bool {
        &&& self.diagnostics@.len() == other.diagnostics@.len()
        &&& forall|i: int|
            0 <= i < self.diagnostics@.len() ==> (#[trigger] self.diagnostics@[i]).says(
                other.diagnostics@[i].message@,
                other.diagnostics@[i].highlights@,
            )
    }

    fn single(diagnostic: Diagnostic) -> (out: Self)
        ensures
            out.diagnostics@ == seq![diagnostic],
    {
        let mut diagnostics: Vec<Diagnostic> = Vec::new();
        diagnostics.push(diagnostic);
        assert(diagnostics@ =~= seq![diagnostic]);
        CompilationError { diagnostics }
    }

    /// The error of one diagnostic: what `err` displays as, without
    /// highlights.
    pub fn from_err<T: core::fmt::Display>(err: T) -> (out: Self)
        ensures
            out.diagnostics@.len() == 1,
            out.diagnostics@[0].highlights@ == Seq::<Highlight>::empty(),
            vstd::string::to_string_from_display_ensures::<T>(&err, out.diagnostics@[0].message),
    {
        Self::from_string(err.to_string())
    }

    /// The error of one diagnostic: this message, without highlights.
    pub fn from_str(err: &str) -> (out: Self)
        ensures
            out.is_single(err@, Seq::empty()),
    {
        Self::single(Diagnostic::from_str(err))
    }

    /// The error of one diagnostic: this message, with the highlight unless
    /// it is blank.
    pub fn from_str_with_highlight(err: &str, highlight: Highlight) -> (out: Self)
        ensures
            out.is_single(
                err@,
                if highlight.is_blank() {
                    Seq::empty()
                } else {
                    seq![highlight]
                },
            ),
    {
        Self::single(Diagnostic::from_str_with_highlight(err, highlight))
    }

    /// The error of one diagnostic: this message, without highlights.
    pub fn from_string(err: String) -> (out: Self)
        ensures
            out.is_single(err@, Seq::empty()),
            out.diagnostics@[0].message == err,
    {
        Self::single(Diagnostic::from_string(err))
    }

    /// The error of one diagnostic: this message, with the highlight unless
    /// it is blank.
    pub fn from_string_with_highlight(err: String, highlight: Highlight) -> (out: Self)
        ensures
            out.is_single(
                err@,
                if highlight.is_blank() {
                    Seq::empty()
                } else {
                    seq![highlight]
                },
            ),
            out.diagnostics@[0].message == err,
    {
        Self::single(Diagnostic::from_string_with_highlight(err, highlight))
    }

    /// The error of one diagnostic: that of a failure to read JSON.
    pub fn from_json(err: &ParseFailure, subject: String) -> (out: Self)
        ensures
            out.is_single(
                err.message@,
                seq![
                    match err.location {
                        Some(at) => point_highlight(subject, at.0, at.1),
                        None => point_highlight(subject, 0, 0),
                    },
                ],
            ),
    {
        Self::single(Diagnostic::from_json(err, subject))
    }

    /// The error of one diagnostic: that of a failure to read YAML.
    pub fn from_yaml(err: &ParseFailure, subject: String) -> (out: Self)
        ensures
            out.is_single(
                err.message@,
                match err.location {
                    Some(at) => seq![point_highlight(subject, at.0, at.1)],
                    None => Seq::empty(),
                },
            ),
    {
        Self::single(Diagnostic::from_yaml(err, subject))
    }

    /// What the error displays as.
    pub fn as_ref(&self) -> (out: &'static str)
        ensures
            out@ == "Compilation error"@,
    {
        "Compilation error"
    }
}

/// What a `Diagnostic` stands for.
pub struct DiagnosticView {
    pub message: Seq<char>,
    pub highlights: Seq<Highlight>,
}

impl View for Diagnostic {
    type V = DiagnosticView;

    open spec fn view(&self) -> DiagnosticView {
        DiagnosticView { message: self.message@, highlights: self.highlights@ }
    }
}

/// The diagnostics of a list, each taken by its view.
pub open spec fn diagnostics_view(diagnostics: Seq<Diagnostic>) -> Seq<DiagnosticView> {
    diagnostics.map_values(|d: Diagnostic| d@)
}

impl View for CompilationError {
    type V = Seq<DiagnosticView>;

    open spec fn view(&self) -> Seq<DiagnosticView> {
        diagnostics_view(self.diagnostics@)
    }
}

/// Copies a list of diagnostics.
pub fn copy_diagnostics(diagnostics: &Vec<Diagnostic>) -> (out: Vec<Diagnostic>)
    ensures
        diagnostics_view(out@) == diagnostics_view(diagnostics@),
{
    let out = clone_diagnostics(diagnostics);
    assert(diagnostics_view(out@) =~= diagnostics_view(diagnostics@));
    out
}

} // verus!
