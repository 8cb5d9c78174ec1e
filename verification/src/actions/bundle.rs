//! The bundle: the traversed modules in one text, with one source map and a
//! table of what each module resolved to.

use crate::actions::batch::{result_urls_of, text_view};
use crate::classes::project::Project;
use crate::encoding::{json_quote, json_quoted};
use crate::sourcemap::{empty_map, empty_map_text, splice_map, spliced_map_json};
use crate::text::{chars_of, newline_count, push_chars, push_text, string_of};
use crate::types::{
    canonical_url, physical_path_spec, resolutions_view, ModuleLocator, OnBatchModuleResult,
    OnBatchResult, OnBundleArgs, OnBundleResult, OnBundleResultData, OnTransformResult,
    Resolution, ResolutionView,
};
use crate::utils::errors::CompilationError;
use crate::utils::json::{
    entries_view, entry, error_json, make_entry, object_text, optional_text_json, write_error,
    write_object, write_optional_text, Entry, EntryView,
};
use crate::utils::order::{
    ascending_order, descending_order, is_arrangement, keys_view, positions_view, sort_indices,
};
use crate::utils::{count_newlines, sorted_params};
use vstd::prelude::*;

verus! {

/// What a bundle holds so far: its code, the number of line feeds in it,
/// and its source map as JSON, or no map once a splice has failed.
pub struct BundleState {
    pub code: Seq<char>,
    pub lines: int,
    pub map: Option<Seq<char>>,
}

/// A bundle before its first module: the code of the runtime and one space
/// where there is a runtime, else nothing; and a source map without
/// mappings.
pub open spec fn bundle_start(runtime_code: Option<Seq<char>>) -> BundleState {
    match runtime_code {
        Some(code) => BundleState {
            code: code + " "@,
            lines: newline_count(code) as int,
            map: Some(empty_map_text()),
        },
        None => BundleState { code: Seq::empty(), lines: 0, map: Some(empty_map_text()) },
    }
}

/// A source map with the map of one more module spliced in at a line. A
/// module without a map leaves the map as it is. A line beyond what an `i64`
/// or a `usize` holds, and a splice that fails, leave no map.
pub open spec fn spliced(base: Option<Seq<char>>, added: Option<Seq<char>>, line: int) -> Option<
    Seq<char>,
> {
    match added {
        Some(map) => match base {
            Some(base) => if line <= i64::MAX && line <= usize::MAX {
                spliced_map_json(base, map, line)
            } else {
                None
            },
            None => None,
        },
        None => base,
    }
}

/// A bundle with one more module. Where the bundle has line feeds already,
/// a line feed goes before the module. A module that succeeded adds its code,
/// the line feeds of its code, and its map at the line where its code begins. A module
/// that failed adds no code.
pub open spec fn bundle_step(s: BundleState, r: OnBatchModuleResult) -> BundleState {
    let code = if s.lines > 0 {
        s.code + "\n"@
    } else {
        s.code
    };
    let lines = if s.lines > 0 {
        s.lines + 1
    } else {
        s.lines
    };
    match r.result {
        Ok(module) => BundleState {
            code: code + module.code@,
            lines: lines + newline_count(module.code@),
            map: spliced(s.map, text_view(module.map), lines),
        },
        Err(_) => BundleState { code, lines, map: s.map },
    }
}

/// A bundle with the modules at the given positions, in that order.
pub open spec fn bundle_fold(start: BundleState, results: Seq<OnBatchModuleResult>, order: Seq<int>)
    -> BundleState
    decreases order.len(),
{
    if order.len() == 0 {
        start
    } else {
        bundle_step(bundle_fold(start, results, order.drop_last()), results[order.last()])
    }
}

/// The specifiers of a list of resolutions.
pub open spec fn specifiers_of(resolutions: Seq<ResolutionView>) -> Seq<Seq<char>> {
    resolutions.map_values(|r: ResolutionView| r.specifier)
}

/// One resolution as an entry: under its specifier, the URL of its target,
/// or `null`.
pub open spec fn resolution_entry(r: ResolutionView) -> EntryView {
    entry(
        r.specifier,
        optional_text_json(
            match r.target {
                Some(t) => Some(t.url),
                None => None,
            },
        ),
    )
}

/// The resolutions of a module as entries, in the order of their
/// specifiers.
pub open spec fn resolution_entries(resolutions: Seq<ResolutionView>) -> Seq<EntryView> {
    ascending_order(specifiers_of(resolutions), resolutions.len() as int).map_values(
        |i: int| resolution_entry(resolutions[i]),
    )
}

/// What the bundle says of one module, as JSON: for a module that
/// succeeded, no error, the path of its file, and what each of its imports
/// resolved to; for a module that failed, its error, no path and no
/// resolutions.
pub open spec fn module_meta_json(
    roots: Map<Seq<char>, Seq<char>>,
    r: OnBatchModuleResult,
    level: nat,
) -> Seq<char> {
    match r.result {
        Ok(module) => object_text(
            seq![
                entry("error"@, "null"@),
                entry("path"@, optional_text_json(physical_path_spec(roots, r.locator@))),
                entry(
                    "resolutions"@,
                    object_text(
                        resolution_entries(resolutions_view(module.resolutions@)),
                        level + 1,
                    ),
                ),
            ],
            level,
        ),
        Err(e) => object_text(
            seq![
                entry("error"@, error_json(e@, level + 1)),
                entry("path"@, "null"@),
                entry("resolutions"@, "{}"@),
            ],
            level,
        ),
    }
}

/// The table of a bundle, as JSON: an object that holds, under the URL of
/// each module, what the bundle says of it; the URLs in ascending order.
pub open spec fn bundle_meta_json(roots: Map<Seq<char>, Seq<char>>, results: Seq<OnBatchModuleResult>)
    -> Seq<char> {
    object_text(
        ascending_order(result_urls_of(results), results.len() as int).map_values(
            |i: int| entry(results[i].locator.url@, module_meta_json(roots, results[i], 1)),
        ),
        0,
    )
}

/// The line of the table: a line feed first where the bundle has line
/// feeds, then the call that hands the table to the runtime.
pub open spec fn meta_line(s: BundleState, meta: Seq<char>) -> Seq<char> {
    if s.lines > 0 {
        "\n"@ + "$esfuse$.meta("@ + meta + ");\n"@
    } else {
        "$esfuse$.meta("@ + meta + ");\n"@
    }
}

/// The line that exports what the entry exports, where that is asked for.
pub open spec fn export_line(entry: crate::types::LocatorView, require_on_load: bool) -> Seq<char> {
    if require_on_load {
        "(typeof module !== 'undefined' ? module : {}).exports = $esfuse$.require("@
            + json_quoted(entry.url) + ");\n"@
    } else {
        Seq::empty()
    }
}

/// The line that names the source map: the URL of the entry's locator with
/// `.map` behind its specifier.
pub open spec fn map_line(entry: crate::types::LocatorView) -> Seq<char> {
    "//# sourceMappingURL="@ + canonical_url(
        entry.kind,
        entry.specifier + ".map"@,
        sorted_params(entry.params),
    ) + "\n"@
}

/// What follows the modules in a bundle: the line of the table, the line
/// that exports what the entry exports, and the line that names the source
/// map.
pub open spec fn bundle_tail(
    s: BundleState,
    meta: Seq<char>,
    entry: crate::types::LocatorView,
    require_on_load: bool,
) -> Seq<char> {
    meta_line(s, meta) + export_line(entry, require_on_load) + map_line(entry)
}

/// The code of the runtime, where there is a runtime and it was
/// transformed.
pub open spec fn runtime_code(runtime: Option<OnTransformResult>) -> Option<Seq<char>> {
    match runtime {
        Some(r) => match r.result {
            Ok(data) => Some(data.code@),
            Err(_) => None,
        },
        None => None,
    }
}

/// The bundle of the traversed modules, from the last URL to the first.
pub open spec fn bundle_modules(runtime: Option<OnTransformResult>, results: Seq<OnBatchModuleResult>)
    -> BundleState {
    bundle_fold(
        bundle_start(runtime_code(runtime)),
        results,
        descending_order(result_urls_of(results)),
    )
}

/// Whether a result is the bundle of the traversed modules. A runtime that
/// failed to transform fails the bundle with its error. A source map that
/// could not be put together fails it with one diagnostic. Else the bundle is
/// the modules and what follows them, with the URL of the entry, the media
/// type of scripts, and the source map.
pub open spec fn is_bundle_of(
    out: OnBundleResult,
    roots: Map<Seq<char>, Seq<char>>,
    args: OnBundleArgs,
    runtime: Option<OnTransformResult>,
    results: Seq<OnBatchModuleResult>,
) -> bool {
    &&& out.dependencies@.len() == 0
    &&& if runtime is Some && runtime->0.result is Err {
        out.result is Err && out.result->Err_0@ == runtime->0.result->Err_0@
    } else {
        let s = bundle_modules(runtime, results);
        match s.map {
            None => out.result is Err && out.result->Err_0.is_single(
                "Assertion failed: Expected the source maps to be well-structured"@,
                Seq::empty(),
            ),
            Some(map) => {
                &&& out.result is Ok
                &&& out.result->Ok_0.entry@ == args.locator.url@
                &&& out.result->Ok_0.mime_type@ == "text/javascript"@
                &&& out.result->Ok_0.map@ == map
                &&& out.result->Ok_0.code@ == s.code + bundle_tail(
                    s,
                    bundle_meta_json(roots, results),
                    args.locator@,
                    args.opts.require_on_load,
                )
            },
        }
    }
}

fn write_resolutions(resolutions: &Vec<Resolution>, level: u8) -> (out: String)
    requires
        level < 200,
    ensures
        out@ == object_text(resolution_entries(resolutions_view(resolutions@)), level as nat),
{
    let ghost view = resolutions_view(resolutions@);
    let mut keys: Vec<String> = Vec::new();
    let mut i: usize = 0;
    while i < resolutions.len()
        invariant
            i <= resolutions.len(),
            view == resolutions_view(resolutions@),
            keys_view(keys@) == specifiers_of(view).take(i as int),
        decreases resolutions.len() - i,
    {
        let key = resolutions[i].specifier.clone();
        proof {
            assert(keys_view(keys@.push(key)) =~= keys_view(keys@).push(key@));
            assert(specifiers_of(view).take(i + 1) =~= specifiers_of(view).take(i as int).push(
                key@,
            ));
        }
        keys.push(key);
        i += 1;
    }
    assert(specifiers_of(view).take(resolutions@.len() as int) =~= specifiers_of(view));
    let order = sort_indices(&keys);
    let ghost positions = positions_view(order@);
    let mut entries: Vec<Entry> = Vec::new();
    let mut k: usize = 0;
    assert(entries_view(entries@) =~= positions.take(0).map_values(
        |i: int| resolution_entry(view[i]),
    ));
    while k < order.len()
        invariant
            k <= order.len(),
            view == resolutions_view(resolutions@),
            positions == positions_view(order@),
            is_arrangement(positions, resolutions@.len() as int),
            entries_view(entries@) == positions.take(k as int).map_values(
                |i: int| resolution_entry(view[i]),
            ),
        decreases order.len() - k,
    {
        assert(positions[k as int] == order@[k as int]);
        let r = &resolutions[order[k]];
        let value = match &r.target {
            Some(t) => json_quote(t.url.as_str()),
            None => "null".to_owned(),
        };
        let e = Entry { key: r.specifier.clone(), value };
        proof {
            assert(e@ == resolution_entry(view[positions[k as int]]));
            assert(entries_view(entries@.push(e)) =~= entries_view(entries@).push(e@));
            assert(positions.take(k + 1).map_values(|i: int| resolution_entry(view[i]))
                =~= positions.take(k as int).map_values(
                |i: int| resolution_entry(view[i]),
            ).push(e@));
        }
        entries.push(e);
        k += 1;
    }
    assert(positions.take(order@.len() as int) =~= positions);
    write_object(&entries, level)
}

fn write_module_meta(project: &Project, r: &OnBatchModuleResult, level: u8) -> (out: String)
    requires
        level < 100,
    ensures
        out@ == module_meta_json(project.roots(), *r, level as nat),
{
    let mut entries: Vec<Entry> = Vec::new();
    match &r.result {
        Ok(module) => {
            entries.push(make_entry("error", "null".to_owned()));
            let path = r.locator.physical_path(project);
            entries.push(make_entry("path", write_optional_text(&path)));
            entries.push(
                make_entry("resolutions", write_resolutions(&module.resolutions, level + 1)),
            );
            assert(entries_view(entries@) =~= seq![
                entry("error"@, "null"@),
                entry(
                    "path"@,
                    optional_text_json(physical_path_spec(project.roots(), r.locator@)),
                ),
                entry(
                    "resolutions"@,
                    object_text(
                        resolution_entries(resolutions_view(module.resolutions@)),
                        (level + 1) as nat,
                    ),
                ),
            ]);
        },
        Err(e) => {
            entries.push(make_entry("error", write_error(e, level + 1)));
            entries.push(make_entry("path", "null".to_owned()));
            entries.push(make_entry("resolutions", "{}".to_owned()));
            assert(entries_view(entries@) =~= seq![
                entry("error"@, error_json(e@, (level + 1) as nat)),
                entry("path"@, "null"@),
                entry("resolutions"@, "{}"@),
            ]);
        },
    }
    write_object(&entries, level)
}

fn result_keys(results: &Vec<OnBatchModuleResult>) -> (keys: Vec<String>)
    ensures
        keys_view(keys@) == result_urls_of(results@),
{
    let mut keys: Vec<String> = Vec::new();
    let mut i: usize = 0;
    while i < results.len()
        invariant
            i <= results.len(),
            keys_view(keys@) == result_urls_of(results@).take(i as int),
        decreases results.len() - i,
    {
        let key = results[i].locator.url.clone();
        proof {
            assert(keys_view(keys@.push(key)) =~= keys_view(keys@).push(key@));
            assert(result_urls_of(results@).take(i + 1) =~= result_urls_of(results@).take(
                i as int,
            ).push(key@));
        }
        keys.push(key);
        i += 1;
    }
    assert(result_urls_of(results@).take(results@.len() as int) =~= result_urls_of(results@));
    keys
}

fn write_meta(project: &Project, results: &Vec<OnBatchModuleResult>, order: &Vec<usize>) -> (out:
    String)
    requires
        positions_view(order@) == ascending_order(
            result_urls_of(results@),
            results@.len() as int,
        ),
        is_arrangement(positions_view(order@), results@.len() as int),
    ensures
        out@ == bundle_meta_json(project.roots(), results@),
{
    let ghost positions = positions_view(order@);
    let ghost roots = project.roots();
    let mut entries: Vec<Entry> = Vec::new();
    let mut k: usize = 0;
    assert(entries_view(entries@) =~= positions.take(0).map_values(
        |i: int| entry(results@[i].locator.url@, module_meta_json(roots, results@[i], 1)),
    ));
    while k < order.len()
        invariant
            k <= order.len(),
            positions == positions_view(order@),
            roots == project.roots(),
            is_arrangement(positions, results@.len() as int),
            entries_view(entries@) == positions.take(k as int).map_values(
                |i: int| entry(results@[i].locator.url@, module_meta_json(roots, results@[i], 1)),
            ),
        decreases order.len() - k,
    {
        assert(positions[k as int] == order@[k as int]);
        let r = &results[order[k]];
        let e = Entry { key: r.locator.url.clone(), value: write_module_meta(project, r, 1) };
        proof {
            assert(entries_view(entries@.push(e)) =~= entries_view(entries@).push(e@));
            assert(positions.take(k + 1).map_values(
                |i: int| entry(results@[i].locator.url@, module_meta_json(roots, results@[i], 1)),
            ) =~= positions.take(k as int).map_values(
                |i: int| entry(results@[i].locator.url@, module_meta_json(roots, results@[i], 1)),
            ).push(e@));
        }
        entries.push(e);
        k += 1;
    }
    assert(positions.take(order@.len() as int) =~= positions);
    write_object(&entries, 0)
}

/// Where a bundle stands while it is put together.
struct Progress {
    code: Vec<char>,
    /// The number of line feeds, or nothing once it is beyond a `usize`.
    lines: Option<usize>,
    map: Option<String>,
}

impl Progress {
    spec fn holds(&self, s: BundleState) -> bool {
        &&& self.code@ == s.code
        &&& match self.lines {
            Some(n) => n as int == s.lines,
            None => s.lines > usize::MAX,
        }
        &&& text_view(self.map) == s.map
        &&& s.lines >= 0
    }

    fn add(&mut self, r: &OnBatchModuleResult, Ghost(s): Ghost<BundleState>)
        requires
            old(self).holds(s),
        ensures
            final(self).holds(bundle_step(s, *r)),
    {
        let has_lines = match self.lines {
            Some(n) => n > 0,
            None => true,
        };
        if has_lines {
            self.code.push('\n');
            self.lines = match self.lines {
                Some(n) => n.checked_add(1),
                None => None,
            };
            proof {
                reveal_strlit("\n");
                assert(self.code@ =~= s.code + "\n"@);
            }
        }
        match &r.result {
            Ok(module) => {
                match &module.map {
                    Some(added) => {
                        let base = self.map.take();
                        self.map = match (base, self.lines) {
                            (Some(base), Some(line)) => {
                                if line as u64 <= 0x7fff_ffff_ffff_ffffu64 {
                                    splice_map(base.as_str(), added.as_str(), line as u64 as i64)
                                } else {
                                    None
                                }
                            },
                            _ => None,
                        };
                    },
                    None => {},
                }
                push_text(&mut self.code, module.code.as_str());
                self.lines = match self.lines {
                    Some(n) => n.checked_add(count_newlines(module.code.as_str())),
                    None => None,
                };
            },
            Err(_) => {},
        }
    }
}

fn begin(runtime: Option<OnTransformResult>) -> (out: Result<Progress, CompilationError>)
    ensures
        match out {
            Ok(progress) => !(runtime is Some && runtime->0.result is Err) && progress.holds(
                bundle_start(runtime_code(runtime)),
            ),
            Err(err) => runtime is Some && runtime->0.result is Err && err@
                == runtime->0.result->Err_0@,
        },
{
    let mut progress = Progress { code: Vec::new(), lines: Some(0), map: Some(empty_map()) };
    match runtime {
        Some(r) => match r.result {
            Ok(data) => {
                progress.lines = Some(count_newlines(data.code.as_str()));
                push_text(&mut progress.code, data.code.as_str());
                progress.code.push(' ');
                proof {
                    reveal_strlit(" ");
                    assert(progress.code@ =~= data.code@ + " "@);
                }
            },
            Err(err) => {
                return Err(err);
            },
        },
        None => {},
    }
    Ok(progress)
}

fn add_modules(
    progress: &mut Progress,
    results: &Vec<OnBatchModuleResult>,
    order: &Vec<usize>,
    Ghost(start): Ghost<BundleState>,
)
    requires
        old(progress).holds(start),
        is_arrangement(positions_view(order@), results@.len() as int),
    ensures
        final(progress).holds(bundle_fold(start, results@, positions_view(order@).reverse())),
{
    let ghost ascending = positions_view(order@);
    let ghost descending = ascending.reverse();
    let n = order.len();
    let mut i: usize = 0;
    assert(descending.take(0) =~= Seq::empty());
    while i < n
        invariant
            i <= n,
            n == order.len(),
            n == results.len(),
            ascending == positions_view(order@),
            descending == ascending.reverse(),
            is_arrangement(ascending, results@.len() as int),
            progress.holds(bundle_fold(start, results@, descending.take(i as int))),
        decreases n - i,
    {
        assert(ascending[n - 1 - i] == order@[n - 1 - i]);
        let at = order[n - 1 - i];
        proof {
            assert(descending.take(i + 1).drop_last() =~= descending.take(i as int));
            assert(descending.take(i + 1).last() == at as int);
        }
        progress.add(
            &results[at],
            Ghost(bundle_fold(start, results@, descending.take(i as int))),
        );
        i += 1;
    }
    assert(descending.take(n as int) =~= descending);
}

fn write_meta_line(has_lines: bool, meta: &str, Ghost(s): Ghost<BundleState>) -> (out: Vec<char>)
    requires
        has_lines == (s.lines > 0),
    ensures
        out@ == meta_line(s, meta@),
{
    let mut out: Vec<char> = Vec::new();
    if has_lines {
        push_text(&mut out, "\n");
    }
    push_text(&mut out, "$esfuse$.meta(");
    push_text(&mut out, meta);
    push_text(&mut out, ");\n");
    assert(out@ =~= meta_line(s, meta@));
    out
}

fn write_export_line(locator: &ModuleLocator, require_on_load: bool) -> (out: Vec<char>)
    ensures
        out@ == export_line(locator@, require_on_load),
{
    let mut out: Vec<char> = Vec::new();
    if require_on_load {
        push_text(
            &mut out,
            "(typeof module !== 'undefined' ? module : {}).exports = $esfuse$.require(",
        );
        push_text(&mut out, json_quote(locator.url.as_str()).as_str());
        push_text(&mut out, ");\n");
    }
    assert(out@ =~= export_line(locator@, require_on_load));
    out
}

fn write_map_line(locator: &ModuleLocator) -> (out: Vec<char>)
    ensures
        out@ == map_line(locator@),
{
    let mut out = chars_of("//# sourceMappingURL=");
    let mut specifier = chars_of(locator.specifier.as_str());
    push_text(&mut specifier, ".map");
    let map_locator = ModuleLocator::new(
        locator.kind,
        string_of(&specifier),
        crate::types::clone_params(&locator.params),
    );
    push_text(&mut out, map_locator.url.as_str());
    push_text(&mut out, "\n");
    out
}

fn push_tail(
    code: &mut Vec<char>,
    has_lines: bool,
    meta: &str,
    locator: &ModuleLocator,
    require_on_load: bool,
    Ghost(s): Ghost<BundleState>,
)
    requires
        has_lines == (s.lines > 0),
    ensures
        final(code)@ == old(code)@ + bundle_tail(s, meta@, locator@, require_on_load),
{
    let first = write_meta_line(has_lines, meta, Ghost(s));
    let second = write_export_line(locator, require_on_load);
    let third = write_map_line(locator);
    push_chars(code, &first);
    push_chars(code, &second);
    push_chars(code, &third);
    assert(code@ =~= old(code)@ + (first@ + second@ + third@));
}

/// Puts the traversed modules together as one bundle: the runtime, where
/// there is one; the modules, from the last URL to the first; the table of
/// what each module resolved to; and the line that names the source map.
pub fn bundle(
    project: &Project,
    args: &OnBundleArgs,
    runtime: Option<OnTransformResult>,
    build_results: &OnBatchResult,
) -> (out: OnBundleResult)
    ensures
        is_bundle_of(out, project.roots(), *args, runtime, build_results.results@),
{
    let ghost start = bundle_start(runtime_code(runtime));
    let mut progress = match begin(runtime) {
        Ok(progress) => progress,
        Err(err) => {
            return OnBundleResult { result: Err(err), dependencies: Vec::new() };
        },
    };
    let results = &build_results.results;
    let keys = result_keys(results);
    let order = sort_indices(&keys);
    add_modules(&mut progress, results, &order, Ghost(start));
    let ghost s = bundle_modules(runtime, results@);
    let map = match progress.map {
        Some(map) => map,
        None => {
            return OnBundleResult {
                result: Err(
                    CompilationError::from_str(
                        "Assertion failed: Expected the source maps to be well-structured",
                    ),
                ),
                dependencies: Vec::new(),
            };
        },
    };
    let mut code = progress.code;
    let has_lines = match progress.lines {
        Some(n) => n > 0,
        None => true,
    };
    let meta = write_meta(project, results, &order);
    push_tail(
        &mut code,
        has_lines,
        meta.as_str(),
        &args.locator,
        args.opts.require_on_load,
        Ghost(s),
    );
    OnBundleResult {
        result: Ok(
            OnBundleResultData {
                entry: args.locator.url.clone(),
                mime_type: "text/javascript".to_owned(),
                code: string_of(&code),
                map,
            },
        ),
        dependencies: Vec::new(),
    }
}

/// Whether no module of the results has a source map.
pub open spec fn has_no_maps(results: Seq<OnBatchModuleResult>) -> bool {
    forall|i: int|
        0 <= i < results.len() && (#[trigger] results[i]).result is Ok
            ==> results[i].result->Ok_0.map is None
}

/// A bundle of modules without source maps has the map it began with.
pub proof fn lemma_fold_without_maps(
    start: BundleState,
    results: Seq<OnBatchModuleResult>,
    order: Seq<int>,
)
    requires
        has_no_maps(results),
        forall|j: int| 0 <= j < order.len() ==> 0 <= #[trigger] order[j] < results.len(),
    ensures
        bundle_fold(start, results, order).map == start.map,
    decreases order.len(),
{
    if order.len() > 0 {
        let front = order.drop_last();
        assert forall|j: int| 0 <= j < front.len() implies 0 <= #[trigger] front[j]
            < results.len() by {
            assert(front[j] == order[j]);
        }
        lemma_fold_without_maps(start, results, front);
        assert(0 <= order[order.len() - 1] < results.len());
    }
}

/// Bundling modules of which none has a source map succeeds, where the
/// runtime, if there is one, was transformed: the source map of the bundle is
/// the map without mappings.
pub proof fn lemma_bundle_without_maps(
    runtime: Option<OnTransformResult>,
    results: Seq<OnBatchModuleResult>,
)
    requires
        has_no_maps(results),
    ensures
        bundle_modules(runtime, results).map == Some(empty_map_text()),
{
    let urls = result_urls_of(results);
    crate::utils::order::lemma_ascending_order(urls, urls.len() as int);
    let order = descending_order(urls);
    let ascending = ascending_order(urls, urls.len() as int);
    assert forall|j: int| 0 <= j < order.len() implies 0 <= #[trigger] order[j]
        < results.len() by {
        assert(order[j] == ascending[ascending.len() - 1 - j]);
    }
    lemma_fold_without_maps(bundle_start(runtime_code(runtime)), results, order);
}

} // verus!
