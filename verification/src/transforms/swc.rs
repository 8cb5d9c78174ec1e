//! The script pass: what it finds in a module and what it makes of it.

use crate::text::{chars_of, push_chars, push_text, same, string_of};
use crate::types::{
    Import, ModuleLocator, OnTransformResult, OnTransformResultData, OnTransformSwcOpts,
    Position, ResolutionKind, Span,
};
use crate::utils::errors::{CompilationError, Diagnostic, Highlight};
use crate::utils::json::{decimal, write_decimal};
use crate::utils::{interlace_vectors, interlaced};
use vstd::prelude::*;

verus! {

/// A place in a source as the parser reports it: a line, counted from 1,
/// and a column, counted from 0.
#[derive(Clone, Copy, Debug, PartialEq, Eq, Structural)]
pub struct SourcePoint {
    pub line: usize,
    pub col_display: usize,
}

/// A range of a source as the parser reports it. An end that is absent
/// stands for "no position".
#[derive(Clone, Copy, Debug, PartialEq, Eq, Structural)]
pub struct SourceRange {
    pub lo: Option<SourcePoint>,
    pub hi: Option<SourcePoint>,
}

/// The span of a range of the parser. A range without one of its ends is
/// the dummy span. Else the span starts at the row and one column behind the
/// column of the lower end, and ends at the row and the column of the upper
/// end, each cut down to 32 bits.
pub open spec fn span_of(range: SourceRange) -> Span {
    match (range.lo, range.hi) {
        (Some(lo), Some(hi)) => Span {
            start: Position {
                row: lo.line as u32,
                col: if lo.col_display < usize::MAX {
                    (lo.col_display + 1) as usize as u32
                } else {
                    0
                },
            },
            end: Position { row: hi.line as u32, col: hi.col_display as u32 },
        },
        _ => Span::dummy_spec(),
    }
}

impl Span {
    /// The span of a range of the parser.
    pub fn from_swc(range: &SourceRange) -> (out: Span)
        ensures
            out == span_of(*range),
    {
        match (range.lo, range.hi) {
            (Some(lo), Some(hi)) => Span {
                start: Position {
                    row: #[verifier::truncate]
                    (lo.line as u32),
                    col: if lo.col_display < usize::MAX {
                        #[verifier::truncate]
                        ((lo.col_display + 1) as u32)
                    } else {
                        0
                    },
                },
                end: Position {
                    row: #[verifier::truncate]
                    (hi.line as u32),
                    col: #[verifier::truncate]
                    (hi.col_display as u32),
                },
            },
            _ => Span::dummy(),
        }
    }
}

/// An import as the pass finds it, with its place as the parser reports
/// it.
#[derive(Clone, Debug, PartialEq, Eq)]
pub struct ImportSwc {
    pub kind: ResolutionKind,
    pub specifier: String,
    pub span: SourceRange,
    pub optional: bool,
}

/// What a call is given as its first argument, as far as the pass looks at
/// it.
#[derive(Clone, Debug, PartialEq, Eq)]
pub enum CallArgument {
    /// A string literal.
    Str(String),
    /// A template literal: its chunks, each cooked where it can be, and the
    /// number of expressions between them.
    Template { quasis: Vec<Option<String>>, exprs: usize },
    /// Anything else.
    Other,
}

/// What a call calls, as far as the pass looks at it.
#[derive(Clone, Debug, PartialEq, Eq)]
pub enum Callee {
    /// The keyword `import`.
    Import,
    /// A name.
    Ident(String),
    /// Anything else.
    Other,
}

/// The specifier that an argument names: the value of a string literal, or
/// the one chunk of a template literal of one chunk, where it is cooked. Any
/// other argument names none.
pub open spec fn specifier_of(e: CallArgument) -> Option<Seq<char>> {
    match e {
        CallArgument::Str(value) => Some(value@),
        CallArgument::Template { quasis, exprs } => if quasis@.len() == 1 && quasis@[0] is Some {
            Some(quasis@[0]->0@)
        } else {
            None
        },
        CallArgument::Other => None,
    }
}

/// The specifier that an argument names, if it names one.
pub fn require_param_to_specifier(e: &CallArgument) -> (out: Option<String>)
    ensures
        out is Some == specifier_of(*e) is Some,
        out is Some ==> out->0@ == specifier_of(*e)->0,
{
    match e {
        CallArgument::Str(value) => Some(value.clone()),
        CallArgument::Template { quasis, exprs } => {
            if quasis.len() == 1 {
                match &quasis[0] {
                    Some(cooked) => Some(cooked.clone()),
                    None => None,
                }
            } else {
                None
            }
        },
        CallArgument::Other => None,
    }
}

/// The specifier that a call of `require` names: the call must call the
/// name `require`, and its first argument must name a specifier.
pub open spec fn required_specifier(callee: Callee, first: Option<CallArgument>) -> Option<
    Seq<char>,
> {
    match (callee, first) {
        (Callee::Ident(name), Some(arg)) => if name@ == "require"@ {
            specifier_of(arg)
        } else {
            None
        },
        _ => None,
    }
}

/// The specifier that a call of `require` names, if the call is one.
pub fn require_call(callee: &Callee, first: &Option<CallArgument>) -> (out: Option<String>)
    ensures
        out is Some == required_specifier(*callee, *first) is Some,
        out is Some ==> out->0@ == required_specifier(*callee, *first)->0,
{
    match (callee, first) {
        (Callee::Ident(name), Some(arg)) => {
            if same(name.as_str(), "require") {
                require_param_to_specifier(arg)
            } else {
                None
            }
        },
        _ => None,
    }
}

/// The import that a call stands for, by its kind and its specifier: a
/// dynamic import for a call of `import` whose first argument names a
/// specifier, an import declaration for a call of `require` whose first
/// argument names one, and none for any other call.
pub open spec fn imported(callee: Callee, first: Option<CallArgument>) -> Option<
    (ResolutionKind, Seq<char>),
> {
    if callee is Import && first is Some && specifier_of(first->0) is Some {
        Some((ResolutionKind::DynamicImport, specifier_of(first->0)->0))
    } else if required_specifier(callee, first) is Some {
        Some((ResolutionKind::ImportDeclaration, required_specifier(callee, first)->0))
    } else {
        None
    }
}

/// The position of the first text of a list that is `text`, or the length
/// of the list where none is.
pub open spec fn first_position(texts: Seq<Seq<char>>, text: Seq<char>) -> int
    decreases texts.len(),
{
    if texts.len() == 0 {
        0
    } else if texts[0] == text {
        0
    } else {
        1 + first_position(texts.drop_first(), text)
    }
}

/// A list of texts without the first that is `text`; the list itself where
/// none is.
pub open spec fn without_first(texts: Seq<Seq<char>>, text: Seq<char>) -> Seq<Seq<char>> {
    let at = first_position(texts, text);
    if 0 <= at < texts.len() {
        texts.remove(at)
    } else {
        texts
    }
}

proof fn lemma_first_position(texts: Seq<Seq<char>>, text: Seq<char>, at: int)
    requires
        0 <= at <= texts.len(),
        forall|j: int| 0 <= j < at ==> texts[j] != text,
        at < texts.len() ==> texts[at] == text,
    ensures
        first_position(texts, text) == at,
        at == texts.len() ==> !texts.contains(text),
    decreases texts.len(),
{
    if texts.len() > 0 && at > 0 {
        let rest = texts.drop_first();
        assert(texts[0] != text);
        assert forall|j: int| 0 <= j < at - 1 implies rest[j] != text by {
            assert(rest[j] == texts[j + 1]);
        }
        if at - 1 < rest.len() {
            assert(rest[at - 1] == texts[at]);
        }
        lemma_first_position(rest, text, at - 1);
    }
    if at == texts.len() && texts.contains(text) {
        let j = choose|j: int| 0 <= j < texts.len() && texts[j] == text;
        assert(texts[j] != text);
    }
}

/// Whether a call is an import that the pass has written itself: a call of
/// `import` with a string literal that is remembered as the path of such an
/// import.
pub open spec fn is_synthesized(marks: Seq<Seq<char>>, callee: Callee, first: Option<CallArgument>)
    -> bool {
    callee is Import && first is Some && first->0 is Str && marks.contains(first->0->Str_0@)
}

/// Whether `after` is the state that looking at a call in `before` leaves,
/// and `replace_callee` the answer. An import that the pass has written itself
/// is not recorded and keeps its callee, and is forgotten. Any other call is
/// recorded if it stands for an import, with the place of its argument and as
/// optional where the walk stands inside a `try` block with a handler; the
/// callee is replaced where the call is a dynamic import.
pub open spec fn is_visit_of(
    before: TransformVisitor,
    after: TransformVisitor,
    replace_callee: bool,
    callee: Callee,
    first: Option<CallArgument>,
    span: SourceRange,
) -> bool {
    let marks = names_view(before.synthesized@);
    if is_synthesized(marks, callee, first) {
        &&& !replace_callee
        &&& after.imports@ == before.imports@
        &&& names_view(after.synthesized@) == without_first(marks, first->0->Str_0@)
    } else {
        &&& names_view(after.synthesized@) == marks
        &&& replace_callee == (callee is Import && imported(callee, first) is Some)
        &&& match imported(callee, first) {
            Some(found) => {
                &&& after.imports@.len() == before.imports@.len() + 1
                &&& after.imports@.drop_last() == before.imports@
                &&& after.imports@.last().kind == found.0
                &&& after.imports@.last().specifier@ == found.1
                &&& after.imports@.last().span == span
                &&& after.imports@.last().optional == (before.try_stack > 0)
            },
            None => after.imports@ == before.imports@,
        }
    }
}

/// An import of a path that was just remembered as the pass's own is one
/// that the pass has written itself: looking at it records nothing and leaves
/// its callee.
pub proof fn lemma_rewritten_import_is_left_alone(marks: Seq<Seq<char>>, path: String)
    ensures
        is_synthesized(
            marks.push(path@),
            Callee::Import,
            Some(CallArgument::Str(path)),
        ),
{
    assert(marks.push(path@)[marks.len() as int] == path@);
}

/// One layer around the body of a module.
#[derive(Clone, Debug, PartialEq, Eq)]
pub enum Envelope {
    /// The body becomes an async function whose promise resolves to the
    /// module's exports, so that the body may await at its top level.
    Promise,
    /// The body becomes the function that a call of `$esfuse$.define`
    /// registers under this URL.
    Define(String),
}

/// What the pass knows while it walks a module.
#[derive(Debug, PartialEq, Eq)]
pub struct TransformVisitor {
    pub opts: OnTransformSwcOpts,
    /// The URL of the module.
    pub url: String,
    /// The imports found so far.
    pub imports: Vec<ImportSwc>,
    /// The number of `try` blocks with a handler around the place of the
    /// walk.
    pub try_stack: usize,
    /// The paths of the imports that the pass has written itself and that
    /// the walk has not met yet.
    pub synthesized: Vec<String>,
}

/// What a call is rewritten to in place of a dynamic import whose argument
/// is a template with expressions: a call that imports `path` and hands the
/// expressions, under `names`, to what it imports.
#[derive(Clone, Debug, PartialEq, Eq)]
pub struct TemplateImport {
    pub path: String,
    pub names: Vec<String>,
}

/// The name that the expression at a position is handed over under.
pub open spec fn expression_name(i: nat) -> Seq<char> {
    "t"@ + decimal(i)
}

/// What stands in a path for the expression at a position.
pub open spec fn expression_token(i: nat) -> Seq<char> {
    "[...t"@ + decimal(i) + "]"@
}

/// The chunks of a template, each as it is cooked; empty where it cannot
/// be.
pub open spec fn cooked_chunks(quasis: Seq<Option<String>>) -> Seq<Seq<char>> {
    quasis.map_values(
        |q: Option<String>|
            match q {
                Some(text) => text@,
                None => Seq::empty(),
            },
    )
}

/// The tokens of the first `n` expressions of a template.
pub open spec fn expression_tokens(n: nat) -> Seq<Seq<char>> {
    Seq::new(n, |i: int| expression_token(i as nat))
}

/// The names of the first `n` expressions of a template.
pub open spec fn expression_names(n: nat) -> Seq<Seq<char>> {
    Seq::new(n, |i: int| expression_name(i as nat))
}

/// The texts of a list of strings.
pub open spec fn names_view(names: Seq<String>) -> Seq<Seq<char>> {
    names.map_values(|n: String| n@)
}

/// The texts of a list, one behind the other.
pub open spec fn flattened(parts: Seq<Seq<char>>) -> Seq<char>
    decreases parts.len(),
{
    if parts.len() == 0 {
        Seq::empty()
    } else {
        flattened(parts.drop_last()) + parts.last()
    }
}

/// The path that stands for a template: its chunks and the tokens of its
/// expressions, taken in turn.
pub open spec fn template_path(quasis: Seq<Option<String>>, exprs: nat) -> Seq<char> {
    flattened(interlaced(cooked_chunks(quasis), expression_tokens(exprs)))
}

/// Whether a call is a dynamic import of a template with expressions: it
/// calls `import` with one argument, a template literal that holds at least
/// one expression.
pub open spec fn is_template_import(callee: Callee, args: Seq<CallArgument>) -> bool {
    callee is Import && args.len() == 1 && args[0] is Template && args[0]->exprs > 0
}

/// Whether a number can be written with the digits that a `u32` has.
pub open spec fn fits(exprs: usize) -> bool {
    exprs <= u32::MAX
}

fn cook(quasis: &Vec<Option<String>>) -> (out: Vec<String>)
    ensures
        names_view(out@) == cooked_chunks(quasis@),
{
    let mut out: Vec<String> = Vec::new();
    let mut i: usize = 0;
    while i < quasis.len()
        invariant
            i <= quasis.len(),
            out@.len() == i,
            forall|j: int| 0 <= j < i ==> (#[trigger] out@[j])@ == cooked_chunks(quasis@)[j],
        decreases quasis.len() - i,
    {
        let text = match &quasis[i] {
            Some(text) => text.clone(),
            None => String::new(),
        };
        out.push(text);
        i += 1;
    }
    assert(names_view(out@) =~= cooked_chunks(quasis@));
    out
}

fn write_expression_tokens(exprs: usize) -> (out: Vec<String>)
    requires
        fits(exprs),
    ensures
        names_view(out@) == expression_tokens(exprs as nat),
{
    let mut out: Vec<String> = Vec::new();
    let mut i: usize = 0;
    while i < exprs
        invariant
            i <= exprs,
            fits(exprs),
            out@.len() == i,
            forall|j: int| 0 <= j < i ==> (#[trigger] out@[j])@ == expression_token(j as nat),
        decreases exprs - i,
    {
        let mut token = chars_of("[...t");
        push_chars(&mut token, &write_decimal(i as u32));
        push_text(&mut token, "]");
        out.push(string_of(&token));
        i += 1;
    }
    assert(names_view(out@) =~= expression_tokens(exprs as nat));
    out
}

fn write_expression_names(exprs: usize) -> (out: Vec<String>)
    requires
        fits(exprs),
    ensures
        names_view(out@) == expression_names(exprs as nat),
{
    let mut out: Vec<String> = Vec::new();
    let mut i: usize = 0;
    while i < exprs
        invariant
            i <= exprs,
            fits(exprs),
            out@.len() == i,
            forall|j: int| 0 <= j < i ==> (#[trigger] out@[j])@ == expression_name(j as nat),
        decreases exprs - i,
    {
        let mut name = chars_of("t");
        push_chars(&mut name, &write_decimal(i as u32));
        out.push(string_of(&name));
        i += 1;
    }
    assert(names_view(out@) =~= expression_names(exprs as nat));
    out
}

fn flatten(parts: &Vec<String>) -> (out: String)
    ensures
        out@ == flattened(names_view(parts@)),
{
    let ghost view = names_view(parts@);
    let mut buf: Vec<char> = Vec::new();
    let mut i: usize = 0;
    assert(view.take(0) =~= Seq::empty());
    while i < parts.len()
        invariant
            i <= parts.len(),
            view == names_view(parts@),
            buf@ == flattened(view.take(i as int)),
        decreases parts.len() - i,
    {
        proof {
            assert(view.take(i + 1).drop_last() =~= view.take(i as int));
            assert(view.take(i + 1).last() == parts@[i as int]@);
        }
        push_text(&mut buf, parts[i].as_str());
        i += 1;
    }
    assert(view.take(parts@.len() as int) =~= view);
    string_of(&buf)
}

fn write_template_path(quasis: &Vec<Option<String>>, exprs: usize) -> (out: String)
    requires
        fits(exprs),
    ensures
        out@ == template_path(quasis@, exprs as nat),
{
    let chunks = cook(quasis);
    let tokens = write_expression_tokens(exprs);
    let ghost a = chunks@;
    let ghost b = tokens@;
    let parts = interlace_vectors(chunks, tokens);
    proof {
        let expected = interlaced(names_view(a), names_view(b));
        assert(names_view(parts@).len() == expected.len());
        assert forall|k: int| 0 <= k < expected.len() implies names_view(parts@)[k]
            == expected[k] by {
            assert(cloned::<String>(interlaced(a, b)[k], parts@[k]));
            assert(interlaced(a, b)[k] == parts@[k]);
        }
        assert(names_view(parts@) =~= expected);
    }
    flatten(&parts)
}

/// What a call is rewritten to in place of a dynamic import of a template
/// with expressions; nothing for any other call, and for a template with more
/// expressions than a `u32` counts.
pub fn dynamic_import_rewrite(callee: &Callee, args: &Vec<CallArgument>) -> (out: Option<
    TemplateImport,
>)
    ensures
        out is Some == (is_template_import(*callee, args@) && fits(args@[0]->exprs)),
        out is Some ==> out->0.path@ == template_path(args@[0]->quasis@, args@[0]->exprs as nat)
            && names_view(out->0.names@) == expression_names(args@[0]->exprs as nat),
{
    match callee {
        Callee::Import => {
            if args.len() == 1 {
                match &args[0] {
                    CallArgument::Template { quasis, exprs } => {
                        if *exprs > 0 && *exprs as u64 <= 0xffff_ffffu64 {
                            return Some(
                                TemplateImport {
                                    path: write_template_path(quasis, *exprs),
                                    names: write_expression_names(*exprs),
                                },
                            );
                        }
                    },
                    _ => {},
                }
            }
        },
        _ => {},
    }
    None
}

impl TransformVisitor {
    /// The state of the pass at the start of a module.
    pub fn new(opts: OnTransformSwcOpts, url: String) -> (out: Self)
        ensures
            out.opts == opts,
            out.url == url,
            out.imports@.len() == 0,
            out.try_stack == 0,
            out.synthesized@.len() == 0,
    {
        TransformVisitor {
            opts,
            url,
            imports: Vec::new(),
            try_stack: 0,
            synthesized: Vec::new(),
        }
    }

    /// Records an import. It is optional where the walk stands inside a
    /// `try` block with a handler.
    pub fn register_import(&mut self, kind: ResolutionKind, specifier: String, span: SourceRange)
        ensures
            final(self).imports@ == old(self).imports@.push(
                ImportSwc { kind, specifier, span, optional: old(self).try_stack > 0 },
            ),
            final(self).opts == old(self).opts,
            final(self).url == old(self).url,
            final(self).try_stack == old(self).try_stack,
            final(self).synthesized == old(self).synthesized,
    {
        let optional = self.try_stack > 0;
        self.imports.push(ImportSwc { kind, specifier, span, optional });
    }

    /// The walk enters the block of a `try` statement. Only a statement with
    /// a handler counts.
    pub fn enter_try(&mut self, has_handler: bool)
        ensures
            final(self).try_stack == if has_handler && old(self).try_stack < usize::MAX {
                old(self).try_stack + 1
            } else {
                old(self).try_stack as int
            },
            final(self).imports == old(self).imports,
            final(self).opts == old(self).opts,
            final(self).url == old(self).url,
            final(self).synthesized == old(self).synthesized,
    {
        if has_handler && self.try_stack < usize::MAX {
            self.try_stack += 1;
        }
    }

    /// The walk leaves the block of a `try` statement, before it enters the
    /// handler or the finalizer.
    pub fn leave_try(&mut self, has_handler: bool)
        ensures
            final(self).try_stack == if has_handler && old(self).try_stack > 0 {
                old(self).try_stack - 1
            } else {
                old(self).try_stack as int
            },
            final(self).imports == old(self).imports,
            final(self).opts == old(self).opts,
            final(self).url == old(self).url,
            final(self).synthesized == old(self).synthesized,
    {
        if has_handler && self.try_stack > 0 {
            self.try_stack -= 1;
        }
    }

    /// The walk looks at an expression before it enters it. A dynamic import
    /// of a template with expressions is rewritten: the answer says to what.
    /// The import that the rewritten call holds is the pass's own, and is
    /// remembered as such by its path.
    pub fn rewrite_dynamic_import(&mut self, callee: &Callee, args: &Vec<CallArgument>) -> (out:
        Option<TemplateImport>)
        ensures
            final(self).opts == old(self).opts,
            final(self).url == old(self).url,
            final(self).try_stack == old(self).try_stack,
            final(self).imports == old(self).imports,
            out is Some == (is_template_import(*callee, args@) && fits(args@[0]->exprs)),
            out is Some ==> out->0.path@ == template_path(
                args@[0]->quasis@,
                args@[0]->exprs as nat,
            ) && names_view(out->0.names@) == expression_names(args@[0]->exprs as nat),
            names_view(final(self).synthesized@) == match out {
                Some(rewrite) => names_view(old(self).synthesized@).push(rewrite.path@),
                None => names_view(old(self).synthesized@),
            },
    {
        let out = dynamic_import_rewrite(callee, args);
        match &out {
            Some(rewrite) => {
                let path = rewrite.path.clone();
                proof {
                    assert(names_view(self.synthesized@.push(path)) =~= names_view(
                        self.synthesized@,
                    ).push(path@));
                }
                self.synthesized.push(path);
            },
            None => {},
        }
        out
    }

    fn forget_synthesized(&mut self, path: &str) -> (found: bool)
        ensures
            final(self).opts == old(self).opts,
            final(self).url == old(self).url,
            final(self).try_stack == old(self).try_stack,
            final(self).imports == old(self).imports,
            found == names_view(old(self).synthesized@).contains(path@),
            names_view(final(self).synthesized@) == without_first(
                names_view(old(self).synthesized@),
                path@,
            ),
            !found ==> final(self).synthesized == old(self).synthesized,
    {
        let ghost marks = names_view(self.synthesized@);
        let mut i: usize = 0;
        while i < self.synthesized.len()
            invariant
                i <= self.synthesized.len(),
                *self == *old(self),
                marks == names_view(self.synthesized@),
                forall|j: int| 0 <= j < i ==> marks[j] != path@,
            decreases self.synthesized.len() - i,
        {
            if same(self.synthesized[i].as_str(), path) {
                proof {
                    assert(marks[i as int] == path@);
                    lemma_first_position(marks, path@, i as int);
                    assert(names_view(self.synthesized@.remove(i as int)) =~= marks.remove(
                        i as int,
                    ));
                }
                self.synthesized.remove(i);
                return true;
            }
            i += 1;
        }
        proof {
            lemma_first_position(marks, path@, marks.len() as int);
        }
        false
    }

    /// The walk has seen the arguments of a call and now looks at the call.
    /// An import that the pass has written itself is left as it is: it is not
    /// recorded, its callee stays, and it is no longer remembered. Of the other
    /// calls, a call of `import` whose argument names a specifier is recorded
    /// as a dynamic import, and its callee is to be replaced by the import
    /// function of the runtime: the answer says so. A call of `require` whose
    /// argument names a specifier is recorded as an import declaration. An
    /// import is recorded with the place of its argument, and as optional
    /// where the walk stands inside a `try` block with a handler.
    pub fn visit_call(&mut self, callee: &Callee, first: &Option<CallArgument>, span: SourceRange)
        -> (replace_callee: bool)
        ensures
            final(self).opts == old(self).opts,
            final(self).url == old(self).url,
            final(self).try_stack == old(self).try_stack,
            is_visit_of(*old(self), *final(self), replace_callee, *callee, *first, span),
    {
        match (callee, first) {
            (Callee::Import, Some(CallArgument::Str(path))) => {
                if self.forget_synthesized(path.as_str()) {
                    return false;
                }
            },
            _ => {},
        }
        let mut replace_callee = false;
        match callee {
            Callee::Import => match first {
                Some(arg) => match require_param_to_specifier(arg) {
                    Some(specifier) => {
                        self.register_import(ResolutionKind::DynamicImport, specifier, span);
                        replace_callee = true;
                    },
                    None => {},
                },
                None => {},
            },
            _ => {},
        }
        match require_call(callee, first) {
            Some(specifier) => {
                self.register_import(ResolutionKind::ImportDeclaration, specifier, span);
            },
            None => {},
        }
        assert(imported(*callee, *first) is Some ==> self.imports@.drop_last() =~= old(self).imports@);
        replace_callee
    }

    /// The layers that go around the body of the module, the innermost
    /// first: the promise, where the body is promisified; then the
    /// registration with the runtime, where the runtime is used.
    pub fn envelope(&self) -> (out: Vec<Envelope>)
        ensures
            out@.len() == (if self.opts.promisify_body {
                1int
            } else {
                0int
            }) + (if self.opts.use_esfuse_runtime {
                1int
            } else {
                0int
            }),
            self.opts.promisify_body ==> out@[0] is Promise,
            self.opts.use_esfuse_runtime ==> out@.last() is Define && out@.last()->Define_0@
                == self.url@,
    {
        let mut out: Vec<Envelope> = Vec::new();
        if self.opts.promisify_body {
            out.push(Envelope::Promise);
        }
        if self.opts.use_esfuse_runtime {
            out.push(Envelope::Define(self.url.clone()));
        }
        out
    }
}

/// The import that is handed on for an import that the pass found: the same
/// kind, specifier and optionality, with the span of its range.
pub open spec fn import_of(found: ImportSwc) -> Import {
    Import {
        kind: found.kind,
        specifier: found.specifier,
        span: span_of(found.span),
        optional: found.optional,
    }
}

/// One highlight of what the parser reports: a range, and a label if it
/// has one.
#[derive(Clone, Debug, PartialEq, Eq)]
pub struct ScriptLabel {
    pub label: Option<String>,
    pub span: SourceRange,
}

/// One diagnostic of the parser.
#[derive(Clone, Debug, PartialEq, Eq)]
pub struct ScriptDiagnostic {
    pub message: String,
    pub labels: Vec<ScriptLabel>,
}

/// The highlight of a label of the parser, in a source.
pub open spec fn label_highlight(label: ScriptLabel, source: String) -> Highlight {
    Highlight {
        source: Some(source),
        subject: None,
        label: label.label,
        span: Some(span_of(label.span)),
    }
}

/// Whether a diagnostic is that of a diagnostic of the parser, in a source:
/// the same message, and the highlight of each label.
pub open spec fn is_report_of(d: Diagnostic, reported: ScriptDiagnostic, source: String) -> bool {
    &&& d.message@ == reported.message@
    &&& d.highlights@.len() == reported.labels@.len()
    &&& forall|j: int|
        0 <= j < d.highlights@.len() ==> #[trigger] d.highlights@[j] == label_highlight(
            reported.labels@[j],
            source,
        )
}

impl CompilationError {
    /// The error that holds what the parser reported: one diagnostic for
    /// each of its diagnostics, with one highlight for each of its labels,
    /// all in the source of the given URL.
    pub fn from_swc(reported: &Vec<ScriptDiagnostic>, source: String) -> (out: Self)
        ensures
            out.diagnostics@.len() == reported@.len(),
            forall|i: int|
                0 <= i < reported@.len() ==> is_report_of(
                    #[trigger] out.diagnostics@[i],
                    reported@[i],
                    source,
                ),
    {
        let mut diagnostics: Vec<Diagnostic> = Vec::new();
        let mut i: usize = 0;
        while i < reported.len()
            invariant
                i <= reported.len(),
                diagnostics@.len() == i,
                forall|k: int|
                    0 <= k < i ==> is_report_of(#[trigger] diagnostics@[k], reported@[k], source),
            decreases reported.len() - i,
        {
            let r = &reported[i];
            let mut highlights: Vec<Highlight> = Vec::new();
            let mut j: usize = 0;
            while j < r.labels.len()
                invariant
                    j <= r.labels.len(),
                    highlights@.len() == j,
                    forall|m: int|
                        0 <= m < j ==> #[trigger] highlights@[m] == label_highlight(
                            r.labels@[m],
                            source,
                        ),
                decreases r.labels.len() - j,
            {
                let l = &r.labels[j];
                highlights.push(
                    Highlight {
                        source: Some(source.clone()),
                        subject: None,
                        label: l.label.clone(),
                        span: Some(Span::from_swc(&l.span)),
                    },
                );
                j += 1;
            }
            diagnostics.push(Diagnostic { message: r.message.clone(), highlights });
            i += 1;
        }
        CompilationError { diagnostics }
    }
}

/// What the parser and the code generator made of a script.
#[derive(Clone, Debug, PartialEq, Eq)]
pub enum ScriptOutcome {
    /// The generated code, and its source map as JSON if it has one.
    Generated { code: String, map: Option<String> },
    /// What the parser reported.
    Rejected(Vec<ScriptDiagnostic>),
}

/// The result of the script pass on a module, from what the parser and the
/// code generator made of it and the imports that the pass found. A script
/// that was rejected without a word gives one diagnostic that says so. The
/// module depends on its own locator.
pub fn transform_swc(locator: ModuleLocator, outcome: ScriptOutcome, found: Vec<ImportSwc>) -> (out:
    OnTransformResult)
    ensures
        out.dependencies@.len() == 1,
        out.dependencies@[0] == locator,
        match outcome {
            ScriptOutcome::Generated { code, map } => {
                &&& out.result is Ok
                &&& out.result->Ok_0.mime_type@ == "text/javascript"@
                &&& out.result->Ok_0.code == code
                &&& out.result->Ok_0.map == map
                &&& out.result->Ok_0.imports@.len() == found@.len()
                &&& forall|i: int|
                    0 <= i < found@.len() ==> #[trigger] out.result->Ok_0.imports@[i]
                        == import_of(found@[i])
            },
            ScriptOutcome::Rejected(reported) => if reported@.len() == 0 {
                out.result is Err && out.result->Err_0.is_single(
                    "The script could not be compiled"@,
                    Seq::empty(),
                )
            } else {
                &&& out.result is Err
                &&& out.result->Err_0.diagnostics@.len() == reported@.len()
                &&& forall|i: int|
                    0 <= i < reported@.len() ==> is_report_of(
                        #[trigger] out.result->Err_0.diagnostics@[i],
                        reported@[i],
                        locator.url,
                    )
            },
        },
{
    let result = match outcome {
        ScriptOutcome::Generated { code, map } => {
            let mut imports: Vec<Import> = Vec::new();
            let mut i: usize = 0;
            while i < found.len()
                invariant
                    i <= found.len(),
                    imports@.len() == i,
                    forall|k: int| 0 <= k < i ==> #[trigger] imports@[k] == import_of(found@[k]),
                decreases found.len() - i,
            {
                let f = &found[i];
                imports.push(
                    Import {
                        kind: f.kind,
                        specifier: f.specifier.clone(),
                        span: Span::from_swc(&f.span),
                        optional: f.optional,
                    },
                );
                i += 1;
            }
            Ok(
                OnTransformResultData {
                    mime_type: "text/javascript".to_owned(),
                    code,
                    map,
                    imports,
                },
            )
        },
        ScriptOutcome::Rejected(reported) => if reported.len() == 0 {
            Err(CompilationError::from_str("The script could not be compiled"))
        } else {
            Err(CompilationError::from_swc(&reported, locator.url.clone()))
        },
    };
    let mut dependencies: Vec<ModuleLocator> = Vec::new();
    dependencies.push(locator);
    OnTransformResult { result, dependencies }
}

/// A call whose callee is neither the keyword `import` nor the name
/// `require` stands for no import, whatever its argument: so the calls that the
/// pass writes itself, which call a member of another name, are not recorded
/// when the pass runs again.
pub proof fn lemma_other_callee_is_no_import(callee: Callee, first: Option<CallArgument>)
    requires
        !(callee is Import),
        callee is Ident ==> callee->Ident_0@ != "require"@,
    ensures
        imported(callee, first) is None,
{
}

} // verus!
