use esfuse::types::{Position, Span};
use esfuse::utils::errors::{CompilationError, Diagnostic, Highlight, ParseFailure};

fn blank() -> Highlight {
    Highlight { source: None, subject: None, label: None, span: None }
}

#[test]
fn diagnostic_from_str_has_no_highlights() {
    let d = Diagnostic::from_str("boom");
    assert_eq!(d.message, "boom");
    assert!(d.highlights.is_empty());
    let s = Diagnostic::from_string("boom".to_string());
    assert_eq!(s, d);
}

#[test]
fn diagnostic_drops_blank_highlight() {
    let d = Diagnostic::from_str_with_highlight("boom", blank());
    assert!(d.highlights.is_empty());
    let s = Diagnostic::from_string_with_highlight("boom".to_string(), blank());
    assert_eq!(s, d);
}

#[test]
fn diagnostic_keeps_highlight_with_any_part() {
    let parts = [
        Highlight { source: Some("u".to_string()), ..blank() },
        Highlight { subject: Some("s".to_string()), ..blank() },
        Highlight { label: Some("l".to_string()), ..blank() },
        Highlight { span: Some(Span::dummy()), ..blank() },
    ];
    for h in parts {
        let d = Diagnostic::from_str_with_highlight("boom", h.clone());
        assert_eq!(d.message, "boom");
        assert_eq!(d.highlights, vec![h]);
    }
}

#[test]
fn dummy_span_is_row_one_column_one() {
    let s = Span::dummy();
    assert_eq!(s.start, Position { row: 1, col: 1 });
    assert_eq!(s.end, Position { row: 1, col: 1 });
}

#[test]
fn diagnostic_from_json_points_at_line_and_column() {
    let failure = ParseFailure { message: "expected value".to_string(), location: Some((3, 7)) };
    let d = Diagnostic::from_json(&failure, "/_dev/file/app/a.json".to_string());
    assert_eq!(d.message, "expected value");
    assert_eq!(d.highlights.len(), 1);
    let h = &d.highlights[0];
    assert_eq!(h.source.as_deref(), Some("/_dev/file/app/a.json"));
    assert_eq!(h.subject, None);
    assert_eq!(h.label, None);
    let at = Position { row: 3, col: 7 };
    assert_eq!(h.span, Some(Span { start: at.clone(), end: at }));
}

#[test]
fn diagnostic_from_yaml_without_location_has_no_highlight() {
    let failure = ParseFailure { message: "bad".to_string(), location: None };
    let d = Diagnostic::from_yaml(&failure, "src".to_string());
    assert_eq!(d.message, "bad");
    assert!(d.highlights.is_empty());
    let located = ParseFailure { message: "bad".to_string(), location: Some((2, 1)) };
    let d = Diagnostic::from_yaml(&located, "src".to_string());
    assert_eq!(d.highlights.len(), 1);
    assert_eq!(d.highlights[0].span.as_ref().unwrap().start, Position { row: 2, col: 1 });
}

#[test]
fn compilation_error_constructors_hold_one_diagnostic() {
    let a = CompilationError::from_str("x");
    assert_eq!(a.diagnostics, vec![Diagnostic::from_str("x")]);
    let b = CompilationError::from_string("x".to_string());
    assert_eq!(a, b);
    let h = Highlight { label: Some("here".to_string()), ..blank() };
    let c = CompilationError::from_str_with_highlight("x", h.clone());
    assert_eq!(c.diagnostics, vec![Diagnostic::from_str_with_highlight("x", h.clone())]);
    let d = CompilationError::from_string_with_highlight("x".to_string(), h);
    assert_eq!(c, d);
    let e = CompilationError::from_str_with_highlight("x", blank());
    assert_eq!(e, a);
}

#[test]
fn compilation_error_from_err_uses_display() {
    let err = "12x".parse::<u32>().unwrap_err();
    let e = CompilationError::from_err(err.clone());
    assert_eq!(e.diagnostics.len(), 1);
    assert_eq!(e.diagnostics[0].message, err.to_string());
    assert!(e.diagnostics[0].highlights.is_empty());
}

#[test]
fn compilation_error_from_json_and_yaml() {
    let failure = ParseFailure { message: "m".to_string(), location: Some((1, 2)) };
    let j = CompilationError::from_json(&failure, "s".to_string());
    assert_eq!(j.diagnostics, vec![Diagnostic::from_json(&failure, "s".to_string())]);
    let y = CompilationError::from_yaml(&failure, "s".to_string());
    assert_eq!(y.diagnostics, vec![Diagnostic::from_yaml(&failure, "s".to_string())]);
}

#[test]
fn compilation_error_displays_as_fixed_text() {
    assert_eq!(CompilationError::from_str("x").as_ref(), "Compilation error");
}

#[test]
fn clones_are_equal() {
    let h = Highlight { source: Some("u".to_string()), span: Some(Span::dummy()), ..blank() };
    let e = CompilationError::from_str_with_highlight("x", h);
    assert_eq!(e.clone(), e);
}
