use esfuse::actions::resolve::{
    describe_failure, merge_params, resolve, resolve_no_hooks, resolved, ResolvePlan,
    ResolverFailure, ResolverOutcome,
};
use esfuse::classes::project::Project;
use esfuse::types::{
    ModuleLocator, ModuleLocatorKind, OnResolveArgs, OnResolveOpts, OnResolveResult, Position,
    ResolutionKind, Span, StringKeyValue,
};

fn kv(name: &str, value: &str) -> StringKeyValue {
    StringKeyValue { name: name.to_string(), value: value.to_string() }
}

fn issuer() -> ModuleLocator {
    ModuleLocator::new(ModuleLocatorKind::File, "app/src/a.js".to_string(), vec![])
}

fn span() -> Span {
    Span { start: Position { row: 2, col: 8 }, end: Position { row: 2, col: 13 } }
}

fn request(text: &str) -> OnResolveArgs {
    OnResolveArgs {
        kind: ResolutionKind::ImportDeclaration,
        request: text.to_string(),
        issuer: Some(issuer()),
        span: Some(span()),
        opts: OnResolveOpts { force_params: vec![] },
    }
}

fn locator(result: &OnResolveResult) -> &ModuleLocator {
    assert!(result.dependencies.is_empty());
    &result.result.as_ref().unwrap().locator
}

#[test]
fn request_that_is_a_locator_resolves_to_it() {
    let p = Project::new("/work/site");
    let r = resolve(&p, &request("/_dev/file/app/b.js?x=1")).unwrap();
    assert_eq!(locator(&r).url, "/_dev/file/app/b.js?x=1");
    let r = resolve(&p, &request("/work/site/b.js")).unwrap();
    assert_eq!(locator(&r).url, "/_dev/file/app/b.js");
    let r = resolve(&p, &request("node:fs")).unwrap();
    assert_eq!(locator(&r).kind, ModuleLocatorKind::External);
    assert_eq!(locator(&r).url, "node:fs");
}

#[test]
fn context_binding_is_external() {
    let p = Project::new("/work/site");
    let r = resolve(&p, &request("esfuse/context")).unwrap();
    assert_eq!(locator(&r).kind, ModuleLocatorKind::External);
    assert_eq!(locator(&r).specifier, "esfuse/context");
    assert_eq!(locator(&r).url, "esfuse/context");
    match resolve_no_hooks(&p, &request("esfuse/context")) {
        ResolvePlan::Done(r) => assert_eq!(locator(&r).url, "esfuse/context"),
        other => panic!("{:?}", other),
    }
}

#[test]
fn other_requests_go_to_the_hooks_and_the_resolver() {
    let p = Project::new("/work/site");
    assert!(resolve(&p, &request("./b")).is_none());
    assert!(resolve(&p, &request("react")).is_none());
}

#[test]
fn resolver_is_asked_from_the_issuer_file() {
    let p = Project::new("/work/site");
    assert_eq!(
        resolve_no_hooks(&p, &request("./b?y=2&x=1")),
        ResolvePlan::Ask {
            specifier: "./b".to_string(),
            base: "/work/site/src/a.js".to_string(),
            params: vec![kv("x", "1"), kv("y", "2")],
        }
    );
}

#[test]
fn resolver_is_asked_from_the_root_without_issuer_file() {
    let p = Project::new("/work/site");
    let mut args = request("react");
    args.issuer = None;
    assert_eq!(
        resolve_no_hooks(&p, &args),
        ResolvePlan::Ask {
            specifier: "react".to_string(),
            base: "/work/site".to_string(),
            params: vec![],
        }
    );
    args.issuer =
        Some(ModuleLocator::new(ModuleLocatorKind::Internal, "runtime".to_string(), vec![]));
    match resolve_no_hooks(&p, &args) {
        ResolvePlan::Ask { base, .. } => assert_eq!(base, "/work/site"),
        other => panic!("{:?}", other),
    }
}

#[test]
fn forced_params_win_over_the_query() {
    let p = Project::new("/work/site");
    let mut args = request("./b?transform=css&x=1");
    args.opts.force_params = vec![kv("transform", "js")];
    match resolve_no_hooks(&p, &args) {
        ResolvePlan::Ask { params, .. } => {
            assert_eq!(params, vec![kv("transform", "js"), kv("x", "1")])
        }
        other => panic!("{:?}", other),
    }
    assert_eq!(
        merge_params(&vec![kv("a", "1"), kv("b", "2")], &vec![kv("b", "9"), kv("c", "3"), kv("a", "8")]),
        vec![kv("a", "1"), kv("b", "2"), kv("c", "3")]
    );
    assert_eq!(merge_params(&vec![], &vec![kv("c", "3")]), vec![kv("c", "3")]);
}

#[test]
fn resolved_path_becomes_a_file_locator() {
    let p = Project::new("/work/site");
    let r = resolved(
        &p,
        &request("./b"),
        &vec![kv("b", "1"), kv("a", "2")],
        &ResolverOutcome::Path("/work/site/src/b.js".to_string()),
    );
    assert_eq!(locator(&r).url, "/_dev/file/app/src/b.js?a=2&b=1");
    assert_eq!(locator(&r).kind, ModuleLocatorKind::File);
}

#[test]
fn resolved_builtin_becomes_an_external_locator() {
    let p = Project::new("/work/site");
    let r = resolved(
        &p,
        &request("fs"),
        &vec![kv("a", "1")],
        &ResolverOutcome::Builtin("fs".to_string()),
    );
    assert_eq!(locator(&r).kind, ModuleLocatorKind::External);
    assert_eq!(locator(&r).url, "fs");
    assert_eq!(locator(&r).specifier, "fs");
    assert!(locator(&r).params.is_empty());
}

fn failure_of(result: &OnResolveResult) -> (String, Option<String>, Option<Span>) {
    assert!(result.dependencies.is_empty());
    let err = result.result.as_ref().unwrap_err();
    assert_eq!(err.diagnostics.len(), 1);
    let d = &err.diagnostics[0];
    match d.highlights.len() {
        0 => (d.message.clone(), None, None),
        1 => {
            assert_eq!(d.highlights[0].subject, None);
            assert_eq!(d.highlights[0].label, None);
            (d.message.clone(), d.highlights[0].source.clone(), d.highlights[0].span.clone())
        }
        n => panic!("{} highlights", n),
    }
}

#[test]
fn failure_points_at_issuer_and_span() {
    let p = Project::new("/work/site");
    let r = resolved(
        &p,
        &request("missing"),
        &vec![],
        &ResolverOutcome::Failed(ResolverFailure::ModuleNotFound { module: "missing".to_string() }),
    );
    assert_eq!(
        failure_of(&r),
        (
            "Module not found (\"missing\")".to_string(),
            Some("/_dev/file/app/src/a.js".to_string()),
            Some(span())
        )
    );
}

#[test]
fn failure_without_issuer_and_span_has_no_highlight() {
    let p = Project::new("/work/site");
    let mut args = request("missing");
    args.issuer = None;
    args.span = None;
    let r = resolved(&p, &args, &vec![], &ResolverOutcome::Failed(ResolverFailure::UnknownError));
    assert_eq!(failure_of(&r), ("Unknown error".to_string(), None, None));
    args.span = Some(span());
    let r = resolved(&p, &args, &vec![], &ResolverOutcome::Failed(ResolverFailure::UnknownError));
    assert_eq!(failure_of(&r), ("Unknown error".to_string(), None, Some(span())));
}

#[test]
fn every_failure_has_its_message() {
    let s = |t: &str| t.to_string();
    let cases = vec![
        (ResolverFailure::UnknownScheme, s("Unknown scheme")),
        (ResolverFailure::UnknownError, s("Unknown error")),
        (
            ResolverFailure::FileNotFound { relative: s("./b"), from: s("/work/site/a.js") },
            s("File not found (\"./b\", from \"/work/site/a.js\")"),
        ),
        (ResolverFailure::ModuleNotFound { module: s("re\"act") }, s("Module not found (\"re\\\"act\")")),
        (ResolverFailure::ModuleEntryNotFound, s("Module entry not found")),
        (ResolverFailure::ModuleSubpathNotFound, s("Module subpath not found")),
        (ResolverFailure::JsonError, s("Json error")),
        (ResolverFailure::IOError, s("IO error")),
        (
            ResolverFailure::PackageJsonError { path: s("/p/package.json"), error: s("Eof") },
            s("Invalid package manifest file (Eof in \"/p/package.json\")"),
        ),
        (
            ResolverFailure::PackageJsonNotFound { from: s("/p") },
            s("Package manifest not found (\"/p\")"),
        ),
        (ResolverFailure::InvalidSpecifier, s("Invalid specifier")),
        (
            ResolverFailure::TsConfigExtendsNotFound,
            s("Extended TypeScript configuration file not found"),
        ),
        (ResolverFailure::PnpResolutionError(s("no pnp")), s("no pnp")),
    ];
    for (failure, expected) in cases {
        assert_eq!(describe_failure(&failure), expected);
    }
}

#[test]
fn unusable_answers_are_failures() {
    let p = Project::new("/work/site");
    let r = resolved(&p, &request("x"), &vec![], &ResolverOutcome::Other("Empty".to_string()));
    assert_eq!(failure_of(&r).0, "Unsupported resolution: Empty");
    let r = resolved(&p, &request("x"), &vec![], &ResolverOutcome::Path("/etc/x".to_string()));
    assert_eq!(failure_of(&r).0, "Unsupported resolution: \"/etc/x\"");
}
