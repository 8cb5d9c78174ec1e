use esfuse::actions::batch::{
    compute_resolution_mappings, follows, resolve_all, ImportResolution, Traversal,
};
use esfuse::classes::project::Project;
use esfuse::types::{
    ModuleLocator, ModuleLocatorKind, OnBatchArgs, OnBatchModule, OnBatchModuleResult, OnBatchOpts,
    OnBatchResult, OnTransformResult, OnTransformResultData, Resolution, StringKeyValue,
};
use esfuse::utils::errors::{CompilationError, Diagnostic};

fn project() -> Project {
    Project::new("/work/site")
}

fn file(specifier: &str) -> ModuleLocator {
    ModuleLocator::new(ModuleLocatorKind::File, specifier.to_string(), vec![])
}

fn all_on() -> OnBatchOpts {
    OnBatchOpts {
        promisify_entry_point: false,
        use_esfuse_runtime: true,
        traverse_dependencies: true,
        traverse_packages: true,
        traverse_vendors: true,
        traverse_natives: true,
        generated_module_folder: Some("/work/site/.generated".to_string()),
    }
}

fn script(code: &str) -> OnTransformResult {
    OnTransformResult {
        result: Ok(OnTransformResultData {
            mime_type: "text/javascript".to_string(),
            code: code.to_string(),
            map: None,
            imports: vec![],
        }),
        dependencies: vec![],
    }
}

fn to(specifier: &str, target: ModuleLocator) -> ImportResolution {
    ImportResolution {
        specifier: specifier.to_string(),
        optional: false,
        result: Ok(target),
        package_dir: None,
    }
}

fn missing(specifier: &str, optional: bool) -> ImportResolution {
    ImportResolution {
        specifier: specifier.to_string(),
        optional,
        result: Err(CompilationError::from_str(&format!("Module not found ({:?})", specifier))),
        package_dir: None,
    }
}

fn run(
    entries: Vec<ModuleLocator>,
    opts: OnBatchOpts,
    graph: &dyn Fn(&ModuleLocator) -> Vec<ImportResolution>,
) -> OnBatchResult {
    let p = project();
    let mut t = Traversal::new(OnBatchArgs { locators: entries, opts });
    while let Some(job) = t.next_job() {
        let resolved = graph(&job.locator);
        assert!(t.record(&p, &job.locator, script("x;\n"), &None, &resolved));
    }
    t.finish()
}

fn urls(result: &OnBatchResult) -> Vec<String> {
    let mut urls: Vec<String> = result.results.iter().map(|r| r.locator.url.clone()).collect();
    urls.sort();
    urls
}

#[test]
fn single_file_without_imports() {
    let result = run(vec![file("app/entry.js")], all_on(), &|_| vec![]);
    assert_eq!(result.results.len(), 1);
    let r = &result.results[0];
    assert_eq!(r.locator.url, "/_dev/file/app/entry.js");
    let module = r.result.as_ref().unwrap();
    assert!(module.resolutions.is_empty());
    assert_eq!(module.code, "x;\n");
    assert_eq!(module.newlines, 1);
    assert_eq!(module.mime_type, "text/javascript");
    assert_eq!(module.imaginary_path.as_deref(), Some("/work/site/entry.js"));
    assert!(r.dependencies.is_empty());
}

#[test]
fn static_import_is_traversed() {
    let result = run(vec![file("app/a.js")], all_on(), &|l| {
        if l.specifier == "app/a.js" {
            vec![to("./b", file("app/b.js"))]
        } else {
            vec![]
        }
    });
    assert_eq!(urls(&result), vec!["/_dev/file/app/a.js", "/_dev/file/app/b.js"]);
    let a = result.results.iter().find(|r| r.locator.specifier == "app/a.js").unwrap();
    let module = a.result.as_ref().unwrap();
    assert_eq!(module.resolutions.len(), 1);
    assert_eq!(module.resolutions[0].specifier, "./b");
    assert_eq!(module.resolutions[0].target.as_ref().unwrap().url, "/_dev/file/app/b.js");
}

#[test]
fn optional_import_failure_is_suppressed() {
    let result = run(vec![file("app/a.js")], all_on(), &|_| vec![missing("missing", true)]);
    assert_eq!(result.results.len(), 1);
    let module = result.results[0].result.as_ref().unwrap();
    assert!(module.resolutions.iter().all(|r| r.specifier != "missing"));
    assert!(module.resolutions.is_empty());
}

#[test]
fn required_import_failure_fails_the_module() {
    let result = run(vec![file("app/a.js")], all_on(), &|l| {
        if l.specifier == "app/a.js" {
            vec![
                to("./b", file("app/b.js")),
                missing("gone", false),
                missing("maybe", true),
                missing("lost", false),
            ]
        } else {
            vec![]
        }
    });
    let a = result.results.iter().find(|r| r.locator.specifier == "app/a.js").unwrap();
    let err = a.result.as_ref().unwrap_err();
    let messages: Vec<&str> = err.diagnostics.iter().map(|d| d.message.as_str()).collect();
    assert_eq!(messages, vec!["Module not found (\"gone\")", "Module not found (\"lost\")"]);
    assert_eq!(urls(&result), vec!["/_dev/file/app/a.js", "/_dev/file/app/b.js"]);
}

#[test]
fn vendors_are_not_traversed_when_filtered() {
    let mut opts = all_on();
    opts.traverse_vendors = false;
    let react = file("app/node_modules/react/index.js");
    let result = run(vec![file("app/entry.js")], opts, &|l| {
        if l.specifier == "app/entry.js" {
            vec![to("react", file("app/node_modules/react/index.js"))]
        } else {
            vec![]
        }
    });
    assert!(react.url.contains("/node_modules/"));
    assert_eq!(urls(&result), vec!["/_dev/file/app/entry.js"]);
    let module = result.results[0].result.as_ref().unwrap();
    assert_eq!(
        module.resolutions,
        vec![Resolution { specifier: "react".to_string(), target: None }]
    );
    assert!(result.results.iter().all(|r| !r.locator.url.contains("/node_modules/")));
}

#[test]
fn vendor_entry_is_still_traversed() {
    let mut opts = all_on();
    opts.traverse_vendors = false;
    let result = run(vec![file("app/node_modules/x/index.js")], opts, &|_| vec![]);
    assert_eq!(urls(&result), vec!["/_dev/file/app/node_modules/x/index.js"]);
}

#[test]
fn traversal_reaches_the_closure_of_the_entries() {
    let graph = |l: &ModuleLocator| -> Vec<ImportResolution> {
        match l.specifier.as_str() {
            "app/a.js" => vec![to("./b", file("app/b.js")), to("./c", file("app/c.js"))],
            "app/b.js" => vec![to("./c", file("app/c.js")), to("./d", file("app/d.js"))],
            "app/c.js" => vec![to("./a", file("app/a.js"))],
            "app/d.js" => vec![to("./d", file("app/d.js"))],
            "app/z.js" => vec![to("./unreached", file("app/y.js"))],
            _ => vec![],
        }
    };
    let result = run(vec![file("app/a.js")], all_on(), &graph);
    assert_eq!(
        urls(&result),
        vec![
            "/_dev/file/app/a.js",
            "/_dev/file/app/b.js",
            "/_dev/file/app/c.js",
            "/_dev/file/app/d.js"
        ]
    );
    let two = run(vec![file("app/d.js"), file("app/z.js")], all_on(), &graph);
    assert_eq!(
        urls(&two),
        vec!["/_dev/file/app/d.js", "/_dev/file/app/y.js", "/_dev/file/app/z.js"]
    );
}

#[test]
fn each_url_has_one_result() {
    let result = run(vec![file("app/a.js"), file("app/a.js")], all_on(), &|l| {
        if l.specifier == "app/a.js" {
            vec![to("./a", file("app/a.js")), to("./b", file("app/b.js")), to("b", file("app/b.js"))]
        } else {
            vec![to("./a", file("app/a.js"))]
        }
    });
    let all = urls(&result);
    let mut unique = all.clone();
    unique.dedup();
    assert_eq!(all, unique);
    assert_eq!(all.len(), 2);
}

#[test]
fn dependencies_are_not_followed_unless_asked() {
    let mut opts = all_on();
    opts.traverse_dependencies = false;
    let result = run(vec![file("app/a.js")], opts, &|_| vec![to("./b", file("app/b.js"))]);
    assert_eq!(urls(&result), vec!["/_dev/file/app/a.js"]);
    let module = result.results[0].result.as_ref().unwrap();
    assert_eq!(module.resolutions[0].target.as_ref().unwrap().url, "/_dev/file/app/b.js");
}

#[test]
fn only_the_first_job_is_the_entry() {
    let mut opts = all_on();
    opts.promisify_entry_point = true;
    let mut t = Traversal::new(OnBatchArgs {
        locators: vec![file("app/a.js"), file("app/b.js")],
        opts,
    });
    let first = t.next_job().unwrap();
    assert_eq!(first.locator.specifier, "app/a.js");
    assert!(first.opts.swc.promisify_body);
    assert!(first.opts.swc.use_esfuse_runtime);
    let second = t.next_job().unwrap();
    assert_eq!(second.locator.specifier, "app/b.js");
    assert!(!second.opts.swc.promisify_body);
    assert!(t.next_job().is_none());
}

#[test]
fn entry_is_not_promisified_unless_asked() {
    let mut t = Traversal::new(OnBatchArgs { locators: vec![file("app/a.js")], opts: all_on() });
    assert!(!t.next_job().unwrap().opts.swc.promisify_body);
}

#[test]
fn record_refuses_what_was_not_handed_out() {
    let p = project();
    let mut t = Traversal::new(OnBatchArgs { locators: vec![file("app/a.js")], opts: all_on() });
    assert!(!t.record(&p, &file("app/a.js"), script(""), &None, &vec![]));
    let job = t.next_job().unwrap();
    assert!(!t.record(&p, &file("app/other.js"), script(""), &None, &vec![]));
    assert!(t.record(&p, &job.locator, script(""), &None, &vec![]));
    assert!(!t.record(&p, &job.locator, script(""), &None, &vec![]));
    assert_eq!(t.finish().results.len(), 1);
}

#[test]
fn failed_transform_is_recorded_and_isolated() {
    let p = project();
    let mut t = Traversal::new(OnBatchArgs {
        locators: vec![file("app/a.js"), file("app/b.js")],
        opts: all_on(),
    });
    let a = t.next_job().unwrap();
    let failed = OnTransformResult {
        result: Err(CompilationError::from_str("Unexpected token")),
        dependencies: vec![],
    };
    assert!(t.record(&p, &a.locator, failed, &None, &vec![to("./c", file("app/c.js"))]));
    let b = t.next_job().unwrap();
    assert_eq!(b.locator.specifier, "app/b.js");
    assert!(t.record(&p, &b.locator, script("ok"), &None, &vec![]));
    assert!(t.next_job().is_none());
    let result = t.finish();
    assert_eq!(result.results.len(), 2);
    assert_eq!(
        result.results[0].result.as_ref().unwrap_err().diagnostics,
        vec![Diagnostic::from_str("Unexpected token")]
    );
    assert!(result.results[1].result.is_ok());
}

#[test]
fn filters_apply_in_every_combination() {
    let issuer = Some("/work/site/package.json".to_string());
    let same = Some("/work/site/package.json".to_string());
    let other = Some("/work/site/node_modules/x/package.json".to_string());
    let plain = file("app/b.js");
    let native = file("app/addon.node");
    let vendor = file("app/node_modules/x/index.js");
    let external = ModuleLocator::new(ModuleLocatorKind::External, "node:fs".to_string(), vec![]);
    let internal = ModuleLocator::new(ModuleLocatorKind::Internal, "runtime".to_string(), vec![]);
    let on = all_on();
    assert!(follows(&on, &issuer, &plain, &same));
    assert!(follows(&on, &issuer, &native, &same));
    assert!(follows(&on, &issuer, &vendor, &other));
    assert!(follows(&on, &issuer, &internal, &None));
    assert!(!follows(&on, &issuer, &external, &None));
    let mut no_natives = all_on();
    no_natives.traverse_natives = false;
    assert!(!follows(&no_natives, &issuer, &native, &same));
    assert!(follows(&no_natives, &issuer, &plain, &same));
    let mut no_vendors = all_on();
    no_vendors.traverse_vendors = false;
    assert!(!follows(&no_vendors, &issuer, &vendor, &same));
    assert!(follows(&no_vendors, &issuer, &plain, &same));
    let mut no_packages = all_on();
    no_packages.traverse_packages = false;
    assert!(!follows(&no_packages, &issuer, &plain, &other));
    assert!(follows(&no_packages, &issuer, &plain, &same));
    assert!(follows(&no_packages, &None, &plain, &other));
    assert!(follows(&no_packages, &issuer, &plain, &None));
}

#[test]
fn resolve_all_last_resolution_of_a_specifier_counts() {
    let (resolutions, errors) = resolve_all(
        &None,
        &vec![
            to("./x", file("app/first.js")),
            to("./y", file("app/y.js")),
            to("./x", file("app/second.js")),
        ],
        &all_on(),
    );
    assert!(errors.is_empty());
    assert_eq!(
        resolutions,
        vec![
            Resolution { specifier: "./x".to_string(), target: Some(file("app/second.js")) },
            Resolution { specifier: "./y".to_string(), target: Some(file("app/y.js")) },
        ]
    );
}

#[test]
fn resolve_all_external_target_is_kept_without_target() {
    let external = ModuleLocator::new(ModuleLocatorKind::External, "node:fs".to_string(), vec![]);
    let (resolutions, errors) = resolve_all(&None, &vec![to("fs", external)], &all_on());
    assert!(errors.is_empty());
    assert_eq!(resolutions, vec![Resolution { specifier: "fs".to_string(), target: None }]);
}

#[test]
fn module_with_params_gets_a_generated_path() {
    let p = project();
    let l = ModuleLocator::new(
        ModuleLocatorKind::File,
        "app/src/a.css".to_string(),
        vec![StringKeyValue { name: "transform".to_string(), value: "js".to_string() }],
    );
    let mut t = Traversal::new(OnBatchArgs { locators: vec![l], opts: all_on() });
    let job = t.next_job().unwrap();
    assert!(t.record(&p, &job.locator, script(""), &None, &vec![]));
    let result = t.finish();
    let path = result.results[0].result.as_ref().unwrap().imaginary_path.clone().unwrap();
    assert_eq!(path, "/work/site/src/ab083dd4fe0a9a9039d825d8e552a8a389608ffd.js");
}

#[test]
fn module_without_file_goes_to_the_generated_folder() {
    let p = project();
    let l = ModuleLocator::new(ModuleLocatorKind::Internal, "runtime".to_string(), vec![]);
    let mut t = Traversal::new(OnBatchArgs { locators: vec![l.clone()], opts: all_on() });
    let job = t.next_job().unwrap();
    assert!(t.record(&p, &job.locator, script(""), &None, &vec![]));
    let result = t.finish();
    let path = result.results[0].result.as_ref().unwrap().imaginary_path.clone().unwrap();
    assert_eq!(path, "/work/site/.generated/190c400a6485c7e7262c9effe3490cc169825e9a.js");
    let mut opts = all_on();
    opts.generated_module_folder = None;
    let mut t = Traversal::new(OnBatchArgs { locators: vec![l], opts });
    let job = t.next_job().unwrap();
    assert!(t.record(&p, &job.locator, script(""), &None, &vec![]));
    assert_eq!(t.finish().results[0].result.as_ref().unwrap().imaginary_path, None);
}

fn module(specifier: &str, path: &str, resolutions: Vec<Resolution>) -> OnBatchModuleResult {
    let locator = file(specifier);
    let mut m = OnBatchModule::new(
        locator.clone(),
        OnTransformResultData {
            mime_type: "text/javascript".to_string(),
            code: String::new(),
            map: None,
            imports: vec![],
        },
        resolutions,
    );
    m.imaginary_path = Some(path.to_string());
    OnBatchModuleResult { locator, result: Ok(m), dependencies: vec![] }
}

#[test]
fn mappings_lead_from_the_module_to_its_targets() {
    let modules = vec![
        module(
            "app/src/a.js",
            "/work/site/src/a.js",
            vec![
                Resolution { specifier: "./b".to_string(), target: Some(file("app/src/b.js")) },
                Resolution { specifier: "react".to_string(), target: None },
                Resolution { specifier: "../lib/c".to_string(), target: Some(file("app/lib/c.js")) },
                Resolution { specifier: "./gone".to_string(), target: Some(file("app/gone.js")) },
                Resolution { specifier: "./bad".to_string(), target: Some(file("app/bad.js")) },
            ],
        ),
        module("app/src/b.js", "/work/site/src/b.js", vec![]),
        module("app/lib/c.js", "/work/site/lib/c.js", vec![]),
        OnBatchModuleResult {
            locator: file("app/bad.js"),
            result: Err(CompilationError::from_str("bad")),
            dependencies: vec![],
        },
    ];
    let all = compute_resolution_mappings(&modules);
    assert_eq!(all.len(), 4);
    assert_eq!(all[0].url, "/_dev/file/app/src/a.js");
    let pairs: Vec<(&str, &str)> =
        all[0].mappings.iter().map(|m| (m.name.as_str(), m.value.as_str())).collect();
    assert_eq!(pairs, vec![("./b", "../b.js"), ("../lib/c", "../../lib/c.js")]);
    assert!(all[1].mappings.is_empty());
    assert!(all[3].mappings.is_empty());
    assert_eq!(all[3].url, "/_dev/file/app/bad.js");
}

#[test]
fn on_batch_module_counts_newlines() {
    let mut m = OnBatchModule::new(
        file("app/a.js"),
        OnTransformResultData {
            mime_type: "text/javascript".to_string(),
            code: "a\nb\nc".to_string(),
            map: Some("{}".to_string()),
            imports: vec![],
        },
        vec![],
    );
    assert_eq!(m.newlines, 2);
    assert_eq!(m.map.as_deref(), Some("{}"));
    assert_eq!(m.imaginary_path, None);
    m.set_code("x\n".to_string());
    assert_eq!(m.code, "x\n");
    assert_eq!(m.newlines, 1);
    m.set_map(None);
    assert_eq!(m.map, None);
}

#[test]
fn resolutions_hold_each_specifier_once() {
    let (resolutions, _) = resolve_all(
        &None,
        &vec![
            to("a", file("app/1.js")),
            to("b", file("app/2.js")),
            to("a", file("app/3.js")),
            missing("a", false),
            to("b", file("app/4.js")),
        ],
        &all_on(),
    );
    let specifiers: Vec<&str> = resolutions.iter().map(|r| r.specifier.as_str()).collect();
    assert_eq!(specifiers, vec!["a", "b"]);
    assert_eq!(resolutions[0].target.as_ref().unwrap().specifier, "app/3.js");
    assert_eq!(resolutions[1].target.as_ref().unwrap().specifier, "app/4.js");
}

#[test]
fn default_options_register_and_follow_everything() {
    let opts = OnBatchOpts::default();
    assert!(!opts.promisify_entry_point);
    assert!(opts.use_esfuse_runtime);
    assert!(opts.traverse_dependencies);
    assert!(opts.traverse_packages);
    assert!(opts.traverse_vendors);
    assert!(opts.traverse_natives);
    assert_eq!(opts.generated_module_folder, None);
    let mut t = Traversal::new(OnBatchArgs { locators: vec![file("app/entry.js")], opts });
    let job = t.next_job().unwrap();
    assert!(job.opts.swc.use_esfuse_runtime);
    assert!(!job.opts.swc.promisify_body);
    assert_eq!(job.locator, file("app/entry.js"));
}

#[test]
fn only_scripts_take_over_a_rewrite() {
    let rewritten = |code: &str| OnTransformResult {
        result: Ok(OnTransformResultData {
            mime_type: "text/javascript".to_string(),
            code: code.to_string(),
            map: Some("{}".to_string()),
            imports: vec![],
        }),
        dependencies: vec![],
    };
    let make = |mime: &str| {
        OnBatchModule::new(
            file("app/a.js"),
            OnTransformResultData {
                mime_type: mime.to_string(),
                code: "old();".to_string(),
                map: None,
                imports: vec![],
            },
            vec![],
        )
    };
    let mut script_module = make("text/javascript");
    assert!(script_module.needs_rewrite());
    script_module.accept_rewrite(rewritten("new();\n\n"));
    assert_eq!(script_module.code, "new();\n\n");
    assert_eq!(script_module.newlines, 2);
    assert_eq!(script_module.map.as_deref(), Some("{}"));
    script_module.accept_rewrite(OnTransformResult {
        result: Err(CompilationError::from_str("no")),
        dependencies: vec![],
    });
    assert_eq!(script_module.code, "new();\n\n");
    let mut style = make("text/css");
    assert!(!style.needs_rewrite());
    style.accept_rewrite(rewritten("new();"));
    assert_eq!(style.code, "old();");
    assert_eq!(style.map, None);
}
