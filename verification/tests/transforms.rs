use esfuse::actions::transform::transform as after_fetch;
use esfuse::transforms::css::{transform_css, transform_css_js, uses_css_modules, CssExport};
use esfuse::transforms::mdx::{
    collect_headings, get_element_heading_level, transform_mdx, transform_mdx_meta,
    transform_result_err_from_string, Heading, TopElement,
};
use esfuse::transforms::swc::{
    dynamic_import_rewrite, require_call, require_param_to_specifier, transform_swc, CallArgument,
    Callee, Envelope, ImportSwc, ScriptDiagnostic, ScriptLabel, ScriptOutcome, SourcePoint,
    SourceRange, TemplateImport, TransformVisitor,
};
use esfuse::transforms::{pass_through, transform, TransformRoute};
use esfuse::types::{
    Import, ModuleLocator, ModuleLocatorKind, OnFetchResult, OnFetchResultData,
    OnTransformSwcOpts, Position, ResolutionKind, Span, StringKeyValue,
};
use esfuse::utils::errors::{CompilationError, Highlight};
use esfuse::utils::swc::DependencyUpdater;

fn kv(name: &str, value: &str) -> StringKeyValue {
    StringKeyValue { name: name.to_string(), value: value.to_string() }
}

fn fetched(specifier: &str, params: Vec<StringKeyValue>, mime: &str) -> OnFetchResultData {
    OnFetchResultData {
        locator: ModuleLocator::new(ModuleLocatorKind::File, specifier.to_string(), params),
        mime_type: mime.to_string(),
        source: "source".to_string(),
    }
}

#[test]
fn route_by_media_type() {
    assert_eq!(transform(&fetched("app/a.js", vec![], "text/javascript")), TransformRoute::Script);
    assert_eq!(transform(&fetched("app/a.css", vec![], "text/css")), TransformRoute::Css);
    assert_eq!(
        transform(&fetched("app/a.css", vec![kv("transform", "js")], "text/css")),
        TransformRoute::CssJs
    );
    assert_eq!(
        transform(&fetched("app/a.css", vec![kv("transform", "css")], "text/css")),
        TransformRoute::Css
    );
    assert_eq!(transform(&fetched("app/a.mdx", vec![], "text/markdown")), TransformRoute::Mdx);
    assert_eq!(
        transform(&fetched("app/a.mdx", vec![kv("meta", "")], "text/markdown")),
        TransformRoute::MdxMeta
    );
    assert_eq!(transform(&fetched("app/a.png", vec![], "image/png")), TransformRoute::PassThrough);
    assert_eq!(
        transform(&fetched("app/a.json", vec![kv("transform", "js")], "application/json")),
        TransformRoute::PassThrough
    );
}

#[test]
fn pass_through_keeps_type_and_content() {
    let out = pass_through(fetched("app/a.png", vec![], "image/png"));
    let data = out.result.unwrap();
    assert_eq!(data.mime_type, "image/png");
    assert_eq!(data.code, "source");
    assert_eq!(data.map, None);
    assert!(data.imports.is_empty());
    assert!(out.dependencies.is_empty());
}

#[test]
fn failed_fetch_is_the_failed_transform() {
    let dep = ModuleLocator::new(ModuleLocatorKind::File, "app/dep.js".to_string(), vec![]);
    let failed = OnFetchResult {
        result: Err(CompilationError::from_str("gone")),
        dependencies: vec![dep.clone()],
    };
    let out = after_fetch(failed).unwrap_err();
    assert_eq!(out.result.unwrap_err(), CompilationError::from_str("gone"));
    assert_eq!(out.dependencies, vec![dep]);
    let ok = OnFetchResult {
        result: Ok(fetched("app/a.css", vec![kv("transform", "js")], "text/css")),
        dependencies: vec![],
    };
    let (data, route) = after_fetch(ok).unwrap();
    assert_eq!(route, TransformRoute::CssJs);
    assert_eq!(data.locator.specifier, "app/a.css");
}

#[test]
fn css_modules_by_specifier() {
    let l = |s: &str| ModuleLocator::new(ModuleLocatorKind::File, s.to_string(), vec![]);
    assert!(uses_css_modules(&l("app/a.module.css")));
    assert!(!uses_css_modules(&l("app/a.css")));
    assert!(!uses_css_modules(&l("app/a.module.css.js")));
    assert!(uses_css_modules(&l(".module.css")));
}

#[test]
fn css_result() {
    let out = transform_css(Ok("a{b:c}".to_string()));
    let data = out.result.unwrap();
    assert_eq!(data.mime_type, "text/css");
    assert_eq!(data.code, "a{b:c}");
    assert_eq!(data.map, None);
    assert!(data.imports.is_empty());
    let failed = transform_css(Err("Unexpected end of input".to_string()));
    assert_eq!(failed.result.unwrap_err(), CompilationError::from_str("Unexpected end of input"));
}

const INJECTION: &str = "if (typeof document !== 'undefined') {\n  let node = document.head.querySelector(`.esfuse-css-module[data-name=\"${module.id}\"]`);\n\n  if (!node) {\n    node = document.createElement('style');\n    node.type = 'text/css';\n    node.classList.add('esfuse-css-module');\n    node.setAttribute('data-name', module.id);\n    document.head.appendChild(node);\n  }\n\n  node.textContent = \".a{content:\\\"x\\\"}\";\n}\n\n";

#[test]
fn css_script_without_exports() {
    assert_eq!(transform_css_js(".a{content:\"x\"}", &None), INJECTION);
}

#[test]
fn css_script_with_exports() {
    let exports = vec![
        CssExport { name: "title".to_string(), generated: "a1_title".to_string() },
        CssExport { name: "b\"ox".to_string(), generated: "a1_box".to_string() },
    ];
    let expected = format!(
        "{}\nexport const styles = {{\n\n  [\"b\\\"ox\"]: \"a1_box\",\n\n  [\"title\"]: \"a1_title\",\n\n}};\n",
        INJECTION
    );
    assert_eq!(transform_css_js(".a{content:\"x\"}", &Some(exports)), expected);
    let none = format!("{}\nexport const styles = {{\n\n}};\n", INJECTION);
    assert_eq!(transform_css_js(".a{content:\"x\"}", &Some(vec![])), none);
}

#[test]
fn heading_levels() {
    assert_eq!(get_element_heading_level("h1"), Some(1));
    assert_eq!(get_element_heading_level("h2"), Some(2));
    assert_eq!(get_element_heading_level("h3"), Some(3));
    assert_eq!(get_element_heading_level("h4"), Some(4));
    assert_eq!(get_element_heading_level("h5"), Some(5));
    assert_eq!(get_element_heading_level("h6"), None);
    assert_eq!(get_element_heading_level("p"), None);
    assert_eq!(get_element_heading_level("H1"), None);
}

#[test]
fn headings_are_collected_with_slugs() {
    let e = |tag: &str, text: &str| TopElement { tag_name: tag.to_string(), text: text.to_string() };
    let headings = collect_headings(&vec![
        e("h1", "Getting Started"),
        e("p", "Intro"),
        e("h2", "Install it!"),
        e("h6", "Too deep"),
        e("h3", ""),
    ]);
    let h = |level: u32, id: &str, name: &str| Heading {
        level,
        id: id.to_string(),
        name: name.to_string(),
    };
    assert_eq!(
        headings,
        vec![h(1, "getting-started", "Getting Started"), h(2, "install-it-", "Install it!"), h(3, "", "")]
    );
}

#[test]
fn mdx_scripts() {
    assert_eq!(
        transform_mdx("function MDXContent() {}", "{\"toc\":[]}"),
        "function MDXContent() {}\nexport const meta = {\"toc\":[]};\n"
    );
    let l = ModuleLocator::new(
        ModuleLocatorKind::File,
        "app/docs/a.mdx".to_string(),
        vec![kv("meta", "")],
    );
    assert_eq!(
        transform_mdx_meta("{\"title\":\"A\"}", &l),
        "export const meta = {\"title\":\"A\"};\n\nexport async function fetch() {\n    const {default: MDXContent} = await import(\"/_dev/file/app/docs/a.mdx\");\n    return MDXContent;\n}\n"
    );
}

#[test]
fn transform_error_from_string() {
    let out = transform_result_err_from_string("bad".to_string());
    assert_eq!(out.result.unwrap_err(), CompilationError::from_str("bad"));
    assert!(out.dependencies.is_empty());
}

fn s(text: &str) -> CallArgument {
    CallArgument::Str(text.to_string())
}

fn tpl(quasis: Vec<Option<&str>>, exprs: usize) -> CallArgument {
    CallArgument::Template {
        quasis: quasis.into_iter().map(|q| q.map(|t| t.to_string())).collect(),
        exprs,
    }
}

#[test]
fn specifier_of_an_argument() {
    assert_eq!(require_param_to_specifier(&s("./b")), Some("./b".to_string()));
    assert_eq!(require_param_to_specifier(&tpl(vec![Some("./b")], 0)), Some("./b".to_string()));
    assert_eq!(require_param_to_specifier(&tpl(vec![None], 0)), None);
    assert_eq!(require_param_to_specifier(&tpl(vec![Some("a"), Some("b")], 1)), None);
    assert_eq!(require_param_to_specifier(&tpl(vec![], 0)), None);
    assert_eq!(require_param_to_specifier(&CallArgument::Other), None);
}

#[test]
fn require_calls() {
    let require = Callee::Ident("require".to_string());
    assert_eq!(require_call(&require, &Some(s("react"))), Some("react".to_string()));
    assert_eq!(require_call(&require, &None), None);
    assert_eq!(require_call(&require, &Some(CallArgument::Other)), None);
    assert_eq!(require_call(&Callee::Ident("required".to_string()), &Some(s("react"))), None);
    assert_eq!(require_call(&Callee::Import, &Some(s("react"))), None);
    assert_eq!(require_call(&Callee::Other, &Some(s("react"))), None);
}

#[test]
fn dynamic_template_import() {
    let out = dynamic_import_rewrite(&Callee::Import, &vec![tpl(vec![Some("./mod-"), Some("")], 1)]);
    assert_eq!(
        out,
        Some(TemplateImport { path: "./mod-[...t0]".to_string(), names: vec!["t0".to_string()] })
    );
    let two = dynamic_import_rewrite(
        &Callee::Import,
        &vec![tpl(vec![Some("a"), Some("b"), Some("c")], 2)],
    );
    assert_eq!(
        two,
        Some(TemplateImport {
            path: "a[...t0]b[...t1]c".to_string(),
            names: vec!["t0".to_string(), "t1".to_string()],
        })
    );
    let uncooked = dynamic_import_rewrite(&Callee::Import, &vec![tpl(vec![Some("a"), None], 1)]);
    assert_eq!(uncooked.unwrap().path, "a[...t0]");
}

#[test]
fn dynamic_template_import_counts_in_decimal() {
    let quasis: Vec<Option<&str>> = vec![Some("/"); 13];
    let out = dynamic_import_rewrite(&Callee::Import, &vec![tpl(quasis, 12)]).unwrap();
    assert!(out.path.ends_with("/[...t9]/[...t10]/[...t11]/"));
    assert_eq!(out.names[10], "t10");
    assert_eq!(out.names.len(), 12);
}

#[test]
fn other_calls_are_not_rewritten() {
    let t = || tpl(vec![Some("a"), Some("b")], 1);
    assert_eq!(dynamic_import_rewrite(&Callee::Ident("require".to_string()), &vec![t()]), None);
    assert_eq!(dynamic_import_rewrite(&Callee::Import, &vec![t(), t()]), None);
    assert_eq!(dynamic_import_rewrite(&Callee::Import, &vec![]), None);
    assert_eq!(dynamic_import_rewrite(&Callee::Import, &vec![s("./b")]), None);
    assert_eq!(dynamic_import_rewrite(&Callee::Import, &vec![tpl(vec![Some("./b")], 0)]), None);
}

fn range(line: usize, lo: usize, hi: usize) -> SourceRange {
    SourceRange {
        lo: Some(SourcePoint { line, col_display: lo }),
        hi: Some(SourcePoint { line, col_display: hi }),
    }
}

fn visitor() -> TransformVisitor {
    TransformVisitor::new(
        OnTransformSwcOpts { use_esfuse_runtime: true, promisify_body: false },
        "/_dev/file/app/a.js".to_string(),
    )
}

#[test]
fn imports_inside_try_with_handler_are_optional() {
    let require = Callee::Ident("require".to_string());
    let mut v = visitor();
    assert!(!v.visit_call(&require, &Some(s("always")), range(1, 0, 17)));
    v.enter_try(true);
    assert!(!v.visit_call(&require, &Some(s("missing")), range(2, 6, 24)));
    v.enter_try(false);
    assert!(!v.visit_call(&require, &Some(s("inner")), range(3, 0, 1)));
    v.leave_try(false);
    v.leave_try(true);
    assert!(!v.visit_call(&require, &Some(s("handler")), range(4, 0, 1)));
    v.enter_try(false);
    assert!(!v.visit_call(&require, &Some(s("finally-only")), range(5, 0, 1)));
    v.leave_try(false);
    let seen: Vec<(&str, bool)> =
        v.imports.iter().map(|i| (i.specifier.as_str(), i.optional)).collect();
    assert_eq!(
        seen,
        vec![
            ("always", false),
            ("missing", true),
            ("inner", true),
            ("handler", false),
            ("finally-only", false)
        ]
    );
    assert!(v.imports.iter().all(|i| i.kind == ResolutionKind::ImportDeclaration));
    assert_eq!(v.imports[1].span, range(2, 6, 24));
    assert_eq!(v.try_stack, 0);
}

#[test]
fn dynamic_import_is_recorded_and_its_callee_replaced() {
    let mut v = visitor();
    assert!(v.visit_call(&Callee::Import, &Some(s("./lazy")), range(1, 0, 16)));
    assert!(!v.visit_call(&Callee::Import, &Some(CallArgument::Other), range(2, 0, 9)));
    assert!(!v.visit_call(&Callee::Import, &None, range(3, 0, 9)));
    assert!(!v.visit_call(&Callee::Other, &Some(s("./x")), range(4, 0, 9)));
    assert_eq!(
        v.imports,
        vec![ImportSwc {
            kind: ResolutionKind::DynamicImport,
            specifier: "./lazy".to_string(),
            span: range(1, 0, 16),
            optional: false,
        }]
    );
}

#[test]
fn synthesized_import_is_left_alone() {
    let mut v = visitor();
    let rewrite = v
        .rewrite_dynamic_import(&Callee::Import, &vec![tpl(vec![Some("./mod-"), Some("")], 1)])
        .unwrap();
    assert_eq!(rewrite.path, "./mod-[...t0]");
    assert_eq!(rewrite.names, vec!["t0".to_string()]);
    assert_eq!(v.synthesized, vec!["./mod-[...t0]".to_string()]);
    assert!(!v.visit_call(&Callee::Import, &Some(s("./mod-[...t0]")), range(1, 0, 1)));
    assert!(v.imports.is_empty());
    assert!(v.synthesized.is_empty());
    assert!(!v.visit_call(&Callee::Other, &Some(CallArgument::Other), range(1, 0, 1)));
    assert!(v.imports.is_empty());
    // The same text written in the module itself is an import like any other.
    assert!(v.visit_call(&Callee::Import, &Some(s("./mod-[...t0]")), range(2, 0, 1)));
    assert_eq!(v.imports.len(), 1);
}

#[test]
fn only_rewritten_calls_are_remembered() {
    let mut v = visitor();
    assert_eq!(v.rewrite_dynamic_import(&Callee::Import, &vec![s("./b")]), None);
    assert_eq!(
        v.rewrite_dynamic_import(&Callee::Ident("require".to_string()), &vec![tpl(vec![Some("a"), Some("b")], 1)]),
        None
    );
    assert!(v.synthesized.is_empty());
    v.rewrite_dynamic_import(&Callee::Import, &vec![tpl(vec![Some("a"), Some("b")], 1)]).unwrap();
    v.rewrite_dynamic_import(&Callee::Import, &vec![tpl(vec![Some("c"), Some("")], 1)]).unwrap();
    v.rewrite_dynamic_import(&Callee::Import, &vec![tpl(vec![Some("a"), Some("b")], 1)]).unwrap();
    assert!(!v.visit_call(&Callee::Import, &Some(s("a[...t0]b")), range(1, 0, 1)));
    assert_eq!(v.synthesized, vec!["c[...t0]".to_string(), "a[...t0]b".to_string()]);
    assert!(!v.visit_call(&Callee::Ident("require".to_string()), &Some(s("c[...t0]")), range(1, 0, 1)));
    assert_eq!(v.imports.len(), 1);
    assert_eq!(v.synthesized.len(), 2);
}

#[test]
fn rejection_without_a_report_still_has_a_diagnostic() {
    let l = ModuleLocator::new(ModuleLocatorKind::File, "app/a.js".to_string(), vec![]);
    let out = transform_swc(l, ScriptOutcome::Rejected(vec![]), vec![]);
    assert_eq!(
        out.result.unwrap_err(),
        CompilationError::from_str("The script could not be compiled")
    );
}

#[test]
fn envelope_layers() {
    let layers = |promisify_body: bool, use_esfuse_runtime: bool| {
        TransformVisitor::new(
            OnTransformSwcOpts { use_esfuse_runtime, promisify_body },
            "/_dev/file/app/a.js".to_string(),
        )
        .envelope()
    };
    let define = || Envelope::Define("/_dev/file/app/a.js".to_string());
    assert_eq!(layers(false, false), vec![]);
    assert_eq!(layers(true, false), vec![Envelope::Promise]);
    assert_eq!(layers(false, true), vec![define()]);
    assert_eq!(layers(true, true), vec![Envelope::Promise, define()]);
}

#[test]
fn span_from_parser_range() {
    let span = Span::from_swc(&SourceRange {
        lo: Some(SourcePoint { line: 3, col_display: 4 }),
        hi: Some(SourcePoint { line: 5, col_display: 9 }),
    });
    assert_eq!(span, Span { start: Position { row: 3, col: 5 }, end: Position { row: 5, col: 9 } });
    let dummy = Span { start: Position { row: 1, col: 1 }, end: Position { row: 1, col: 1 } };
    assert_eq!(Span::from_swc(&SourceRange { lo: None, hi: None }), dummy);
    let half = SourceRange { lo: Some(SourcePoint { line: 3, col_display: 4 }), hi: None };
    assert_eq!(Span::from_swc(&half), dummy);
    let wide = Span::from_swc(&range(4294967296 + 7, 4294967295, 4294967296 + 2));
    assert_eq!(wide, Span { start: Position { row: 7, col: 0 }, end: Position { row: 7, col: 2 } });
}

#[test]
fn script_result_maps_imports() {
    let l = ModuleLocator::new(ModuleLocatorKind::File, "app/a.js".to_string(), vec![]);
    let found = vec![ImportSwc {
        kind: ResolutionKind::ImportDeclaration,
        specifier: "./b".to_string(),
        span: range(1, 16, 21),
        optional: true,
    }];
    let out = transform_swc(
        l.clone(),
        ScriptOutcome::Generated { code: "code".to_string(), map: Some("{}".to_string()) },
        found,
    );
    assert_eq!(out.dependencies, vec![l.clone()]);
    let data = out.result.unwrap();
    assert_eq!(data.mime_type, "text/javascript");
    assert_eq!(data.code, "code");
    assert_eq!(data.map.as_deref(), Some("{}"));
    assert_eq!(
        data.imports,
        vec![Import {
            kind: ResolutionKind::ImportDeclaration,
            specifier: "./b".to_string(),
            span: Span { start: Position { row: 1, col: 17 }, end: Position { row: 1, col: 21 } },
            optional: true,
        }]
    );
}

#[test]
fn script_rejection_becomes_diagnostics() {
    let l = ModuleLocator::new(ModuleLocatorKind::File, "app/a.js".to_string(), vec![]);
    let reported = vec![
        ScriptDiagnostic {
            message: "Expected ';'".to_string(),
            labels: vec![
                ScriptLabel { label: Some("here".to_string()), span: range(2, 0, 3) },
                ScriptLabel { label: None, span: SourceRange { lo: None, hi: None } },
            ],
        },
        ScriptDiagnostic { message: "Eof".to_string(), labels: vec![] },
    ];
    let out = transform_swc(l.clone(), ScriptOutcome::Rejected(reported), vec![]);
    assert_eq!(out.dependencies, vec![l]);
    let err = out.result.unwrap_err();
    assert_eq!(err.diagnostics.len(), 2);
    assert_eq!(err.diagnostics[0].message, "Expected ';'");
    assert_eq!(
        err.diagnostics[0].highlights,
        vec![
            Highlight {
                source: Some("/_dev/file/app/a.js".to_string()),
                subject: None,
                label: Some("here".to_string()),
                span: Some(Span {
                    start: Position { row: 2, col: 1 },
                    end: Position { row: 2, col: 3 }
                }),
            },
            Highlight {
                source: Some("/_dev/file/app/a.js".to_string()),
                subject: None,
                label: None,
                span: Some(Span::dummy()),
            },
        ]
    );
    assert_eq!(err.diagnostics[1].message, "Eof");
    assert!(err.diagnostics[1].highlights.is_empty());
}

#[test]
fn dependency_updater_replaces_known_specifiers() {
    let mappings = vec![kv("./b", "../b.js"), kv("react", "../node_modules/react/index.js")];
    let updater = DependencyUpdater::new(&mappings);
    assert_eq!(updater.replacement("./b"), Some("../b.js".to_string()));
    assert_eq!(updater.replacement("react"), Some("../node_modules/react/index.js".to_string()));
    assert_eq!(updater.replacement("./c"), None);
    assert_eq!(DependencyUpdater::new(&vec![]).replacement("./b"), None);
}
