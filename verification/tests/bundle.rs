use esfuse::actions::bundle::bundle;
use esfuse::classes::project::Project;
use esfuse::types::{
    ModuleLocator, ModuleLocatorKind, OnBatchModule, OnBatchModuleResult, OnBatchOpts,
    OnBatchResult, OnBundleArgs, OnBundleOpts, OnTransformResult, OnTransformResultData,
    Position, Resolution, Span, StringKeyValue,
};
use esfuse::utils::errors::{CompilationError, Highlight};

fn file(specifier: &str) -> ModuleLocator {
    ModuleLocator::new(ModuleLocatorKind::File, specifier.to_string(), vec![])
}

fn data(code: &str, map: Option<&str>) -> OnTransformResultData {
    OnTransformResultData {
        mime_type: "text/javascript".to_string(),
        code: code.to_string(),
        map: map.map(|m| m.to_string()),
        imports: vec![],
    }
}

fn module(specifier: &str, code: &str, map: Option<&str>, resolutions: Vec<Resolution>)
    -> OnBatchModuleResult {
    let locator = file(specifier);
    OnBatchModuleResult {
        locator: locator.clone(),
        result: Ok(OnBatchModule::new(locator, data(code, map), resolutions)),
        dependencies: vec![],
    }
}

fn args(entry: ModuleLocator, require_on_load: bool) -> OnBundleArgs {
    OnBundleArgs {
        locator: entry,
        opts: OnBundleOpts { batch: OnBatchOpts::default(), require_on_load, runtime: None },
    }
}

const MAP_A: &str = r#"{"version":3,"sources":["/_dev/file/app/a.js"],"names":[],"mappings":"AAAA"}"#;
const MAP_B: &str =
    r#"{"version":3,"sources":["/_dev/file/app/b.js"],"names":[],"mappings":"AAAA;AACA"}"#;

#[test]
fn empty_bundle() {
    let p = Project::new("/work/site");
    let out = bundle(&p, &args(file("app/a.js"), false), None, &OnBatchResult { results: vec![] });
    assert!(out.dependencies.is_empty());
    let b = out.result.unwrap();
    assert_eq!(b.entry, "/_dev/file/app/a.js");
    assert_eq!(b.mime_type, "text/javascript");
    assert_eq!(b.code, "$esfuse$.meta({});\n//# sourceMappingURL=/_dev/file/app/a.js.map\n");
    assert_eq!(
        b.map,
        r#"{"version":3,"sourceRoot":null,"mappings":"","sources":[],"sourcesContent":[],"names":[]}"#
    );
}

#[test]
fn two_modules_from_last_url_to_first() {
    let p = Project::new("/work/site");
    let results = OnBatchResult {
        results: vec![
            module(
                "app/a.js",
                "a();",
                Some(MAP_A),
                vec![
                    Resolution { specifier: "react".to_string(), target: None },
                    Resolution { specifier: "./b".to_string(), target: Some(file("app/b.js")) },
                ],
            ),
            module("app/b.js", "b1();\nb2();", Some(MAP_B), vec![]),
        ],
    };
    let out = bundle(&p, &args(file("app/a.js"), true), None, &results).result.unwrap();
    let expected = [
        "b1();\nb2();\na();\n",
        "$esfuse$.meta({\n",
        "    \"/_dev/file/app/a.js\": {\n",
        "        \"error\": null,\n",
        "        \"path\": \"/work/site/a.js\",\n",
        "        \"resolutions\": {\n",
        "            \"./b\": \"/_dev/file/app/b.js\",\n",
        "            \"react\": null\n",
        "        }\n",
        "    },\n",
        "    \"/_dev/file/app/b.js\": {\n",
        "        \"error\": null,\n",
        "        \"path\": \"/work/site/b.js\",\n",
        "        \"resolutions\": {}\n",
        "    }\n",
        "});\n",
        "(typeof module !== 'undefined' ? module : {}).exports = ",
        "$esfuse$.require(\"/_dev/file/app/a.js\");\n",
        "//# sourceMappingURL=/_dev/file/app/a.js.map\n",
    ].concat();
    assert_eq!(out.code, expected);
    assert_eq!(
        out.map,
        [
            r#"{"version":3,"sourceRoot":null,"mappings":"AAAA;AACA;ACDA","#,
            r#""sources":["_dev/file/app/b.js","_dev/file/app/a.js"],"#,
            r#""sourcesContent":["",""],"names":[]}"#
        ].concat()
    );
}

#[test]
fn bundle_round_trip() {
    let p = Project::new("/work/site");
    let entry = ModuleLocator::new(
        ModuleLocatorKind::File,
        "app/a b.js".to_string(),
        vec![StringKeyValue { name: "x".to_string(), value: "1".to_string() }],
    );
    let mut a = module("app/a b.js", "a();", None, vec![]);
    a.locator = entry.clone();
    let results = OnBatchResult { results: vec![a, module("app/c.js", "c();", None, vec![])] };
    let out = bundle(&p, &args(entry.clone(), false), None, &results).result.unwrap();
    let lines: Vec<&str> = out.code.lines().collect();
    let last = lines[lines.len() - 1];
    let value = last.strip_prefix("//# sourceMappingURL=").unwrap();
    assert_eq!(value, "/_dev/file/app/a b.js.map?x=1");
    let expected = ModuleLocator::new(entry.kind, format!("{}.map", entry.specifier), entry.params);
    assert_eq!(value, expected.url);
    assert!(out.code.ends_with("\n"));
    let start = out.code.find("$esfuse$.meta(").unwrap() + "$esfuse$.meta(".len();
    let end = out.code.rfind(");\n//# sourceMappingURL=").unwrap();
    let meta: serde_json::Value = serde_json::from_str(&out.code[start..end]).unwrap();
    let keys: Vec<&String> = meta.as_object().unwrap().keys().collect();
    assert_eq!(keys, vec!["/_dev/file/app/a b.js?x=1", "/_dev/file/app/c.js"]);
    assert_eq!(lines[lines.len() - 2], "});");
}

#[test]
fn runtime_goes_first_with_one_space() {
    let p = Project::new("/work/site");
    let runtime = OnTransformResult {
        result: Ok(data("var $esfuse$ = {};\n", None)),
        dependencies: vec![],
    };
    let results = OnBatchResult { results: vec![module("app/a.js", "a();", Some(MAP_A), vec![])] };
    let out = bundle(&p, &args(file("app/a.js"), false), Some(runtime), &results).result.unwrap();
    assert!(out.code.starts_with("var $esfuse$ = {};\n \na();\n$esfuse$.meta({"));
    assert_eq!(
        out.map,
        [
            r#"{"version":3,"sourceRoot":null,"mappings":";;AAAA","#,
            r#""sources":["_dev/file/app/a.js"],"sourcesContent":[""],"names":[]}"#
        ].concat()
    );
}

#[test]
fn runtime_without_line_feed_is_followed_by_the_module() {
    let p = Project::new("/work/site");
    let runtime = OnTransformResult { result: Ok(data("rt();", None)), dependencies: vec![] };
    let results = OnBatchResult { results: vec![module("app/a.js", "a();", None, vec![])] };
    let out = bundle(&p, &args(file("app/a.js"), false), Some(runtime), &results).result.unwrap();
    assert!(out.code.starts_with("rt(); a();$esfuse$.meta({"));
}

#[test]
fn failed_runtime_fails_the_bundle() {
    let p = Project::new("/work/site");
    let runtime = OnTransformResult {
        result: Err(CompilationError::from_str("no runtime")),
        dependencies: vec![],
    };
    let out = bundle(&p, &args(file("app/a.js"), false), Some(runtime), &OnBatchResult { results: vec![] });
    assert_eq!(out.result.unwrap_err(), CompilationError::from_str("no runtime"));
    assert!(out.dependencies.is_empty());
}

#[test]
fn unreadable_source_map_fails_the_bundle() {
    let p = Project::new("/work/site");
    let results = OnBatchResult { results: vec![module("app/a.js", "a();", Some("not json"), vec![])] };
    let out = bundle(&p, &args(file("app/a.js"), false), None, &results);
    assert_eq!(
        out.result.unwrap_err(),
        CompilationError::from_str(
            "Assertion failed: Expected the source maps to be well-structured"
        )
    );
}

#[test]
fn failed_module_adds_no_code_and_its_error_to_the_table() {
    let p = Project::new("/work/site");
    let failed = OnBatchModuleResult {
        locator: file("app/z.js"),
        result: Err(CompilationError::from_str_with_highlight(
            "Unexpected \"token\"",
            Highlight {
                source: Some("/_dev/file/app/z.js".to_string()),
                subject: None,
                label: Some("here".to_string()),
                span: Some(Span {
                    start: Position { row: 1, col: 2 },
                    end: Position { row: 30, col: 4000000000 },
                }),
            },
        )),
        dependencies: vec![],
    };
    let results = OnBatchResult {
        results: vec![module("app/a.js", "a();\n", None, vec![]), failed],
    };
    let out = bundle(&p, &args(file("app/a.js"), false), None, &results).result.unwrap();
    let expected = [
        "a();\n\n",
        "$esfuse$.meta({\n",
        "    \"/_dev/file/app/a.js\": {\n",
        "        \"error\": null,\n",
        "        \"path\": \"/work/site/a.js\",\n",
        "        \"resolutions\": {}\n",
        "    },\n",
        "    \"/_dev/file/app/z.js\": {\n",
        "        \"error\": {\n",
        "            \"diagnostics\": [\n",
        "                {\n",
        "                    \"highlights\": [\n",
        "                        {\n",
        "                            \"label\": \"here\",\n",
        "                            \"source\": \"/_dev/file/app/z.js\",\n",
        "                            \"span\": {\n",
        "                                \"end\": {\n",
        "                                    \"col\": 4000000000,\n",
        "                                    \"row\": 30\n",
        "                                },\n",
        "                                \"start\": {\n",
        "                                    \"col\": 2,\n",
        "                                    \"row\": 1\n",
        "                                }\n",
        "                            },\n",
        "                            \"subject\": null\n",
        "                        }\n",
        "                    ],\n",
        "                    \"message\": \"Unexpected \\\"token\\\"\"\n",
        "                }\n",
        "            ]\n",
        "        },\n",
        "        \"path\": null,\n",
        "        \"resolutions\": {}\n",
        "    }\n",
        "});\n",
        "//# sourceMappingURL=/_dev/file/app/a.js.map\n",
    ].concat();
    assert_eq!(out.code, expected);
}

#[test]
fn table_matches_serde_json_pretty_printing() {
    let p = Project::new("/work/site");
    let failed = OnBatchModuleResult {
        locator: file("app/z.js"),
        result: Err(CompilationError::from_str("plain")),
        dependencies: vec![],
    };
    let results = OnBatchResult {
        results: vec![
            failed,
            module(
                "app/m.js",
                "m();",
                None,
                vec![Resolution { specifier: "b".to_string(), target: Some(file("app/b.js")) }],
            ),
        ],
    };
    let out = bundle(&p, &args(file("app/m.js"), false), None, &results).result.unwrap();
    let start = out.code.find("$esfuse$.meta(").unwrap() + "$esfuse$.meta(".len();
    let end = out.code.rfind(");\n//# sourceMappingURL=").unwrap();
    let text = &out.code[start..end];
    let value: serde_json::Value = serde_json::from_str(text).unwrap();
    let mut buf = Vec::new();
    let formatter = serde_json::ser::PrettyFormatter::with_indent(b"    ");
    let mut ser = serde_json::Serializer::with_formatter(&mut buf, formatter);
    serde::Serialize::serialize(&value, &mut ser).unwrap();
    assert_eq!(text, String::from_utf8(buf).unwrap());
    assert_eq!(value["/_dev/file/app/z.js"]["error"]["diagnostics"][0]["message"], "plain");
    assert_eq!(value["/_dev/file/app/m.js"]["resolutions"]["b"], "/_dev/file/app/b.js");
}
