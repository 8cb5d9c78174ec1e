use esfuse::classes::project::{HookStep, Project};
use esfuse::types::{ModuleLocator, ModuleLocatorKind, PluginHook, StringKeyValue};

fn kv(name: &str, value: &str) -> StringKeyValue {
    StringKeyValue { name: name.to_string(), value: value.to_string() }
}

fn project() -> Project {
    let mut p = Project::new("/work/site");
    p.register_ns("ylc", "/work/site/.yarn/cache");
    p.register_ns("lib", "/opt/lib");
    p
}

fn hook(pattern: &str) -> PluginHook {
    PluginHook { regexp: pattern.to_string(), params: vec![] }
}

#[test]
fn new_registers_app_for_the_root() {
    let p = Project::new("/work/site");
    assert_eq!(p.root, "/work/site");
    assert_eq!(p.root_ns("app"), Some("/work/site".to_string()));
    assert_eq!(p.root_ns("other"), None);
    assert!(p.on_resolve.is_empty());
    assert!(p.on_fetch.is_empty());
}

#[test]
fn new_normalizes_the_root() {
    let p = Project::new("/work/./site/../site//");
    assert_eq!(p.root_ns("app"), Some("/work/site/".to_string()));
}

#[test]
fn register_ns_last_registration_wins() {
    let mut p = project();
    p.register_ns("lib", "/opt/other");
    assert_eq!(p.root_ns("lib"), Some("/opt/other".to_string()));
}

#[test]
fn ns_qualified_from_path_uses_longest_registered_directory() {
    let p = project();
    assert_eq!(p.ns_qualified_from_path("/work/site/src/a.js"), Some("app/src/a.js".to_string()));
    assert_eq!(
        p.ns_qualified_from_path("/work/site/.yarn/cache/x/y.js"),
        Some("ylc/x/y.js".to_string())
    );
    assert_eq!(p.ns_qualified_from_path("/opt/lib/m.js"), Some("lib/m.js".to_string()));
}

#[test]
fn ns_qualified_from_path_matches_whole_segments_only() {
    let p = project();
    assert_eq!(p.ns_qualified_from_path("/work/sites/a.js"), None);
    assert_eq!(p.ns_qualified_from_path("/opt/library/a.js"), None);
}

#[test]
fn ns_qualified_from_path_outside_every_namespace_is_none() {
    let p = project();
    assert_eq!(p.ns_qualified_from_path("/etc/passwd"), None);
    assert_eq!(p.ns_qualified_from_path("relative/a.js"), None);
    assert_eq!(p.ns_qualified_from_path(""), None);
}

#[test]
fn ns_qualified_from_path_of_the_directory_itself() {
    let p = project();
    assert_eq!(p.ns_qualified_from_path("/opt/lib"), Some("lib/".to_string()));
}

#[test]
fn path_from_ns_qualified_joins_namespace_root_and_rest() {
    let p = project();
    assert_eq!(p.path_from_ns_qualified("app/src/a.js"), Some("/work/site/src/a.js".to_string()));
    assert_eq!(p.path_from_ns_qualified("lib/m.js"), Some("/opt/lib/m.js".to_string()));
    assert_eq!(p.path_from_ns_qualified("lib/"), Some("/opt/lib".to_string()));
}

#[test]
fn path_from_ns_qualified_of_other_shapes_is_none() {
    let p = project();
    assert_eq!(p.path_from_ns_qualified("unknown/a.js"), None);
    assert_eq!(p.path_from_ns_qualified("app"), None);
    assert_eq!(p.path_from_ns_qualified("/a.js"), None);
    assert_eq!(p.path_from_ns_qualified("app?x/a.js"), None);
    assert_eq!(p.path_from_ns_qualified(""), None);
}

#[test]
fn a_line_feed_is_an_ordinary_character_of_a_path() {
    let p = project();
    assert_eq!(p.path_from_ns_qualified("app/a\n.js"), Some("/work/site/a\n.js".to_string()));
    let locator = p.locator_from_path("/work/site/a\n.js", &vec![]).unwrap();
    assert_eq!(locator.specifier, "app/a\n.js");
    assert_eq!(locator.physical_path(&p), Some("/work/site/a\n.js".to_string()));
}

#[test]
fn path_round_trip() {
    let p = project();
    for (ns, root) in [("app", "/work/site"), ("ylc", "/work/site/.yarn/cache"), ("lib", "/opt/lib")] {
        assert_eq!(p.root_ns(ns), Some(root.to_string()));
        for sub in ["a.js", "src/a.js", "deep/er/still/x.module.css"] {
            let path = format!("{}/{}", root, sub);
            let locator = p.locator_from_path(&path, &vec![]).unwrap();
            assert_eq!(locator.kind, ModuleLocatorKind::File);
            assert_eq!(locator.physical_path(&p), Some(path));
        }
    }
}

#[test]
fn locator_from_path_sorts_params() {
    let p = project();
    let l = p.locator_from_path("/opt/lib/m.js", &vec![kv("b", "1"), kv("a", "2")]).unwrap();
    assert_eq!(l.url, "/_dev/file/lib/m.js?a=2&b=1");
    assert_eq!(l.specifier, "lib/m.js");
    assert!(p.locator_from_path("/etc/passwd", &vec![]).is_none());
}

#[test]
fn physical_path_only_for_file_locators() {
    let p = project();
    let internal = ModuleLocator::new(ModuleLocatorKind::Internal, "app/a.js".to_string(), vec![]);
    assert_eq!(internal.physical_path(&p), None);
    let external = ModuleLocator::new(ModuleLocatorKind::External, "node:fs".to_string(), vec![]);
    assert_eq!(external.physical_path(&p), None);
    let unknown = ModuleLocator::new(ModuleLocatorKind::File, "nope/a.js".to_string(), vec![]);
    assert_eq!(unknown.physical_path(&p), None);
}

#[test]
fn locator_reads_dev_urls_and_schemes() {
    let p = project();
    let l = p.locator("/_dev/file/app/a.js?x=1").unwrap();
    assert_eq!(l.kind, ModuleLocatorKind::File);
    assert_eq!(l.specifier, "app/a.js");
    assert_eq!(l.params, vec![kv("x", "1")]);
    let e = p.locator("node:fs").unwrap();
    assert_eq!(e.kind, ModuleLocatorKind::External);
    assert_eq!(e.url, "node:fs");
    assert!(p.locator("/_dev/other/app/a.js").is_none());
}

#[test]
fn locator_reads_absolute_paths_with_query() {
    let p = project();
    let l = p.locator("/work/site/src/a.js?b=2&a=1").unwrap();
    assert_eq!(l.url, "/_dev/file/app/src/a.js?a=1&b=2");
    assert!(p.locator("/etc/passwd").is_none());
}

#[test]
fn locator_of_bare_and_relative_specifiers_is_none() {
    let p = project();
    assert!(p.locator("react").is_none());
    assert!(p.locator("./b").is_none());
    assert!(p.locator("").is_none());
}

#[test]
fn hooks_are_tried_in_order() {
    let hooks = vec![hook(r"\.css$"), hook(r"^/_dev/file/"), hook(r"a\.js$")];
    let key = "/_dev/file/app/a.js";
    assert_eq!(Project::resolve_plugin_hook(&hooks, key, 0), HookStep::Invoke(1));
    assert_eq!(Project::resolve_plugin_hook(&hooks, key, 2), HookStep::Invoke(2));
    assert_eq!(Project::resolve_plugin_hook(&hooks, key, 3), HookStep::Exhausted);
    assert_eq!(Project::resolve_plugin_hook(&hooks, key, 9), HookStep::Exhausted);
    assert_eq!(Project::resolve_plugin_hook(&hooks, "x.txt", 0), HookStep::Exhausted);
    assert_eq!(Project::resolve_plugin_hook(&vec![], key, 0), HookStep::Exhausted);
}

#[test]
fn hook_with_broken_pattern_stops_the_search() {
    let hooks = vec![hook(r"\.css$"), hook(r"("), hook(r"a")];
    assert_eq!(Project::resolve_plugin_hook(&hooks, "a.js", 0), HookStep::Failed(1));
    assert_eq!(Project::resolve_plugin_hook(&hooks, "a.js", 2), HookStep::Invoke(2));
}

#[test]
fn hook_patterns_may_look_around() {
    let hooks = vec![hook(r"(?<!\.module)\.css$")];
    assert_eq!(Project::resolve_plugin_hook(&hooks, "a.css", 0), HookStep::Invoke(0));
    assert_eq!(Project::resolve_plugin_hook(&hooks, "a.module.css", 0), HookStep::Exhausted);
}

#[test]
fn root_directory_as_namespace() {
    let p = Project::new("/");
    assert_eq!(p.root_ns("app"), Some("/".to_string()));
    assert_eq!(p.ns_qualified_from_path("/a/b.js"), Some("app/a/b.js".to_string()));
    assert_eq!(p.path_from_ns_qualified("app/a/b.js"), Some("/a/b.js".to_string()));
    assert_eq!(p.ns_qualified_from_path("/"), Some("app/".to_string()));
    assert_eq!(p.path_from_ns_qualified("app/"), Some("/".to_string()));
}

#[test]
fn path_round_trip_through_nested_namespaces() {
    let mut p = Project::new("/work");
    p.register_ns("inner", "/work/a/b");
    p.register_ns("deep", "/work/a/b/c/d");
    for path in ["/work", "/work/a", "/work/a/b", "/work/a/b/c", "/work/a/b/c/d", "/work/a/b/c/d/e.js"] {
        let locator = p.locator_from_path(path, &vec![]).unwrap();
        assert_eq!(locator.physical_path(&p), Some(path.to_string()));
    }
    assert_eq!(p.ns_qualified_from_path("/work/a/x.js"), Some("app/a/x.js".to_string()));
    assert_eq!(p.ns_qualified_from_path("/work/a/b/x.js"), Some("inner/x.js".to_string()));
    assert_eq!(p.ns_qualified_from_path("/work/a/b/c/x.js"), Some("inner/c/x.js".to_string()));
    assert_eq!(p.ns_qualified_from_path("/work/a/b/c/d/x.js"), Some("deep/x.js".to_string()));
    assert_eq!(p.ns_qualified_from_path("/work/a/b/c/d"), Some("deep/".to_string()));
}

#[test]
fn paths_are_taken_in_normal_form() {
    let p = project();
    assert_eq!(
        p.ns_qualified_from_path("/work/site/src/../lib/./a.js"),
        Some("app/lib/a.js".to_string())
    );
    assert_eq!(
        p.path_from_ns_qualified("app/src/../lib/a.js"),
        Some("/work/site/lib/a.js".to_string())
    );
    assert_eq!(p.path_from_ns_qualified("app//etc/passwd"), Some("/etc/passwd".to_string()));
}

#[test]
fn a_directory_registered_with_a_slash_at_its_end() {
    let mut p = Project::new("/work/site");
    p.register_ns("data", "/srv/data/");
    assert_eq!(p.root_ns("data"), Some("/srv/data/".to_string()));
    let l = p.locator_from_path("/srv/data/x/y.js", &vec![]).unwrap();
    assert_eq!(l.kind, ModuleLocatorKind::File);
    assert_eq!(l.specifier, "data/x/y.js");
    assert_eq!(l.url, "/_dev/file/data/x/y.js");
    assert_eq!(l.physical_path(&p), Some("/srv/data/x/y.js".to_string()));
    let dir = p.locator_from_path("/srv/data/", &vec![]).unwrap();
    assert_eq!(dir.specifier, "data/");
    assert_eq!(dir.physical_path(&p), Some("/srv/data/".to_string()));
}

#[test]
fn a_registered_directory_written_the_other_way_comes_back_as_registered() {
    let mut p = Project::new("/work/site");
    p.register_ns("data", "/srv/data/");
    let l = p.locator_from_path("/srv/data", &vec![]).unwrap();
    assert_eq!(l.specifier, "data/");
    assert_eq!(l.physical_path(&p), Some("/srv/data/".to_string()));
}

#[test]
fn directories_are_registered_in_normal_form() {
    let mut p = Project::new("/work/./site/../site");
    assert_eq!(p.root_ns("app"), Some("/work/site".to_string()));
    assert_eq!(p.root_path(), "/work/site");
    p.register_ns("up", "/srv//data/../lib/");
    assert_eq!(p.root_ns("up"), Some("/srv/lib/".to_string()));
    let l = p.locator_from_path("/srv/lib/m.js", &vec![]).unwrap();
    assert_eq!(l.specifier, "up/m.js");
    assert_eq!(l.physical_path(&p), Some("/srv/lib/m.js".to_string()));
    let top = Project::new("/a/..");
    assert_eq!(top.root_ns("app"), Some("/".to_string()));
    let m = top.locator_from_path("/etc/x", &vec![]).unwrap();
    assert_eq!(m.specifier, "app/etc/x");
    assert_eq!(m.physical_path(&top), Some("/etc/x".to_string()));
}
