//! The data model: positions, parameters and module locators, and the
//! arguments and results of each stage of the pipeline.

use crate::classes::project::{physical_of, Project};
use crate::text::{
    begins_with, chars_of, find_char, find_either, index_of, index_where, is_either,
    newline_count, push_text, same, same_chars, slice_chars, starts_with, string_of,
};
use crate::utils::count_newlines;
use crate::utils::errors::CompilationError;
use crate::utils::{
    is_sorted, lemma_sorted_params, lemma_sorted_params_fixed, parse_query, parse_query_spec,
    query_text, sort_params, sorted_params, stringify_query, written_params,
};
use vstd::prelude::*;

verus! {

/// A position in a source text: `row` counts from 1.
#[derive(Debug, Default, PartialEq, Eq)]
pub struct Position {
    pub row: u32,
    pub col: u32,
}

impl Clone for Position {
    fn clone(&self) -> (out: Self)
        ensures
            out == *self,
    {
        Position { row: self.row, col: self.col }
    }
}

/// A range of a source text, from `start` to `end`.
#[derive(Debug, Default, PartialEq, Eq)]
pub struct Span {
    pub start: Position,
    pub end: Position,
}

impl Clone for Span {
    fn clone(&self) -> (out: Self)
        ensures
            out == *self,
    {
        Span { start: self.start.clone(), end: self.end.clone() }
    }
}

impl Span {
    /// The span that stands for "no position": row 1, column 1, both ends.
    pub open spec fn dummy_spec() -> Span {
        Span { start: Position { row: 1, col: 1 }, end: Position { row: 1, col: 1 } }
    }

    /// The span that stands for "no position".
    pub fn dummy() -> (out: Span)
        ensures
            out == Span::dummy_spec(),
    {
        Span { start: Position { row: 1, col: 1 }, end: Position { row: 1, col: 1 } }
    }
}

/// What a `StringKeyValue` stands for: a name and a value, as texts.
pub struct KeyValue {
    pub name: Seq<char>,
    pub value: Seq<char>,
}

/// A named parameter. An empty value is a value.
#[derive(Debug, PartialEq, Eq, Hash)]
pub struct StringKeyValue {
    pub name: String,
    pub value: String,
}

impl View for StringKeyValue {
    type V = KeyValue;

    open spec fn view(&self) -> KeyValue {
        KeyValue { name: self.name@, value: self.value@ }
    }
}

impl Clone for StringKeyValue {
    fn clone(&self) -> (out: Self)
        ensures
            out == *self,
    {
        StringKeyValue { name: self.name.clone(), value: self.value.clone() }
    }
}

/// The parameters of a list, each taken by its view.
pub open spec fn params_view(params: Seq<StringKeyValue>) -> Seq<KeyValue> {
    params.map_values(|p: StringKeyValue| p@)
}

/// A named parameter whose value may be absent.
#[derive(Debug, PartialEq, Eq, Hash)]
pub struct OptionStringKeyValue {
    pub name: String,
    pub value: Option<String>,
}

impl Clone for OptionStringKeyValue {
    fn clone(&self) -> (out: Self)
        ensures
            out == *self,
    {
        OptionStringKeyValue { name: self.name.clone(), value: self.value.clone() }
    }
}

/// The three kinds of module locator.
#[derive(Clone, Copy, Debug, PartialEq, Eq, Hash, Structural)]
pub enum ModuleLocatorKind {
    /// A file below one of the project's namespaces.
    File,
    /// A module that the engine itself provides.
    Internal,
    /// Anything else: a built-in module, a `data:` URL.
    External,
}

/// What a `ModuleLocator` stands for.
pub struct LocatorView {
    pub url: Seq<char>,
    pub kind: ModuleLocatorKind,
    pub specifier: Seq<char>,
    pub params: Seq<KeyValue>,
}

/// The identity of a module: a kind, a specifier and parameters, with the
/// URL that stands for the three.
#[derive(Debug, PartialEq, Eq, Hash)]
pub struct ModuleLocator {
    pub url: String,
    pub kind: ModuleLocatorKind,
    pub specifier: String,
    pub params: Vec<StringKeyValue>,
}

impl View for ModuleLocator {
    type V = LocatorView;

    open spec fn view(&self) -> LocatorView {
        LocatorView {
            url: self.url@,
            kind: self.kind,
            specifier: self.specifier@,
            params: params_view(self.params@),
        }
    }
}

/// Copies a list of parameters.
pub fn clone_params(params: &Vec<StringKeyValue>) -> (out: Vec<StringKeyValue>)
    ensures
        out@ == params@,
{
    let mut out: Vec<StringKeyValue> = Vec::new();
    let mut i: usize = 0;
    while i < params.len()
        invariant
            i <= params.len(),
            out@ == params@.take(i as int),
        decreases params.len() - i,
    {
        out.push(params[i].clone());
        i += 1;
    }
    assert(params@.take(params@.len() as int) =~= params@);
    out
}

impl Clone for ModuleLocator {
    fn clone(&self) -> (out: Self)
        ensures
            out.url == self.url,
            out.kind == self.kind,
            out.specifier == self.specifier,
            out.params@ == self.params@,
            out@ == self@,
    {
        let params = clone_params(&self.params);
        assert(params@ =~= self.params@);
        ModuleLocator {
            url: self.url.clone(),
            kind: self.kind,
            specifier: self.specifier.clone(),
            params,
        }
    }
}

/// What every dev URL begins with.
pub open spec fn dev_prefix() -> Seq<char> {
    "/_dev/"@
}

/// What the URL of a locator of the given kind begins with.
pub open spec fn kind_prefix(kind: ModuleLocatorKind) -> Seq<char> {
    match kind {
        ModuleLocatorKind::File => "/_dev/file/"@,
        ModuleLocatorKind::Internal => "/_dev/internal/"@,
        ModuleLocatorKind::External => Seq::empty(),
    }
}

/// The URL of a locator: the prefix of its kind, the specifier, and the
/// parameters as a query.
pub open spec fn canonical_url(
    kind: ModuleLocatorKind,
    specifier: Seq<char>,
    params: Seq<KeyValue>,
) -> Seq<char> {
    kind_prefix(kind) + specifier + query_text(params)
}

/// The locator of a kind, a specifier and parameters that are taken as
/// given.
pub open spec fn locator_of(
    kind: ModuleLocatorKind,
    specifier: Seq<char>,
    params: Seq<KeyValue>,
) -> LocatorView {
    LocatorView { url: canonical_url(kind, specifier, params), kind, specifier, params }
}

/// Whether a locator's parameters are sorted and its URL is the one that
/// stands for its kind, specifier and parameters.
pub open spec fn well_formed(l: LocatorView) -> bool {
    is_sorted(l.params) && l.url == canonical_url(l.kind, l.specifier, l.params)
}

/// Whether a text has the shape of a dev URL: the dev prefix, a kind made
/// of one or more characters other than `/` and `?`, and a `/`. What follows
/// is the specifier, up to the first `?`, and the query.
pub open spec fn is_dev_url(s: Seq<char>) -> bool {
    starts_with(s, dev_prefix()) && {
        let rest = s.skip(dev_prefix().len() as int);
        let k = index_where(rest, is_either('/', '?'));
        1 <= k < rest.len() && rest[k] == '/'
    }
}

/// The kind, as written, of a text with the shape of a dev URL.
pub open spec fn dev_kind(s: Seq<char>) -> Seq<char> {
    let rest = s.skip(dev_prefix().len() as int);
    rest.take(index_where(rest, is_either('/', '?')))
}

/// What follows the kind and its `/` in a text with the shape of a dev URL.
pub open spec fn dev_tail(s: Seq<char>) -> Seq<char> {
    let rest = s.skip(dev_prefix().len() as int);
    rest.skip(index_where(rest, is_either('/', '?')) + 1)
}

/// The specifier of a text with the shape of a dev URL.
pub open spec fn dev_specifier(s: Seq<char>) -> Seq<char> {
    dev_tail(s).take(index_of(dev_tail(s), '?'))
}

/// The query, with its `?`, of a text with the shape of a dev URL.
pub open spec fn dev_query(s: Seq<char>) -> Seq<char> {
    dev_tail(s).skip(index_of(dev_tail(s), '?'))
}

/// The locator that a URL stands for. A dev URL of kind `file` or `internal`
/// gives a locator of that kind with the parameters of its query, sorted; a
/// dev URL of another kind gives none; any other text is an external locator
/// whose specifier is the text.
pub open spec fn from_url_spec(s: Seq<char>) -> Option<LocatorView> {
    if is_dev_url(s) {
        if dev_kind(s) == "file"@ {
            Some(
                locator_of(
                    ModuleLocatorKind::File,
                    dev_specifier(s),
                    parse_query_spec(dev_query(s)),
                ),
            )
        } else if dev_kind(s) == "internal"@ {
            Some(
                locator_of(
                    ModuleLocatorKind::Internal,
                    dev_specifier(s),
                    parse_query_spec(dev_query(s)),
                ),
            )
        } else {
            None
        }
    } else {
        Some(locator_of(ModuleLocatorKind::External, s, Seq::empty()))
    }
}

impl ModuleLocator {
    /// Whether the parameters are sorted and the URL is the canonical one.
    pub open spec fn wf(&self) -> bool {
        well_formed(self@)
    }

    /// The locator of a kind, a specifier and parameters. The parameters are
    /// sorted by name, and the URL is composed from the three.
    pub fn new(kind: ModuleLocatorKind, specifier: String, params: Vec<StringKeyValue>) -> (out:
        Self)
        ensures
            out@ == locator_of(kind, specifier@, sorted_params(params_view(params@))),
            out.wf(),
    {
        let sorted = sort_params(&params);
        let query = stringify_query(&sorted);
        let mut buf: Vec<char> = Vec::new();
        match kind {
            ModuleLocatorKind::File => {
                push_text(&mut buf, "/_dev/file/");
            },
            ModuleLocatorKind::Internal => {
                push_text(&mut buf, "/_dev/internal/");
            },
            ModuleLocatorKind::External => {},
        }
        assert(buf@ =~= kind_prefix(kind));
        push_text(&mut buf, specifier.as_str());
        push_text(&mut buf, query.as_str());
        proof {
            lemma_sorted_params(params_view(params@));
        }
        ModuleLocator { url: string_of(&buf), kind, specifier, params: sorted }
    }

    /// The locator that a URL stands for, if it stands for one.
    pub fn from_url(url: &str) -> (out: Option<Self>)
        ensures
            out is Some == from_url_spec(url@) is Some,
            out is Some ==> out->0@ == from_url_spec(url@)->0,
            out is Some ==> out->0.wf(),
    {
        let chars = chars_of(url);
        let prefix = chars_of("/_dev/");
        if begins_with(&chars, &prefix) {
            let rest = slice_chars(&chars, prefix.len(), chars.len());
            assert(rest@ =~= url@.skip(dev_prefix().len() as int));
            let k = find_either(&rest, '/', '?');
            if 1 <= k && k < rest.len() && rest[k] == '/' {
                let kind_chars = slice_chars(&rest, 0, k);
                let tail = slice_chars(&rest, k + 1, rest.len());
                assert(kind_chars@ =~= dev_kind(url@));
                assert(tail@ =~= dev_tail(url@));
                let q = find_char(&tail, '?');
                let specifier = slice_chars(&tail, 0, q);
                let query = slice_chars(&tail, q, tail.len());
                assert(specifier@ =~= dev_specifier(url@));
                assert(query@ =~= dev_query(url@));
                let kind = if same_chars(&kind_chars, &chars_of("file")) {
                    ModuleLocatorKind::File
                } else if same_chars(&kind_chars, &chars_of("internal")) {
                    ModuleLocatorKind::Internal
                } else {
                    return None;
                };
                let params = parse_query(string_of(&query).as_str());
                proof {
                    lemma_sorted_params(written_params(query@));
                    lemma_sorted_params_fixed(parse_query_spec(query@));
                }
                return Some(ModuleLocator::new(kind, string_of(&specifier), params));
            }
        }
        let none: Vec<StringKeyValue> = Vec::new();
        assert(params_view(none@) =~= Seq::empty());
        Some(ModuleLocator::new(ModuleLocatorKind::External, string_of(&chars), none))
    }

    /// The locator of the same kind and specifier, without parameters.
    pub fn without_query(&self) -> (out: Self)
        ensures
            out@ == locator_of(self.kind, self.specifier@, Seq::empty()),
            out.wf(),
    {
        let none: Vec<StringKeyValue> = Vec::new();
        assert(params_view(none@) =~= Seq::empty());
        ModuleLocator::new(self.kind, self.specifier.clone(), none)
    }

    /// Whether two locators have the same URL.
    pub fn same_url(&self, other: &ModuleLocator) -> (r: bool)
        ensures
            r == (self.url@ == other.url@),
    {
        same(self.url.as_str(), other.url.as_str())
    }
}

/// How an import is written: as a declaration (a `require` call once the
/// module is lowered), or as a dynamic `import(..)`.
#[derive(Clone, Copy, Debug, PartialEq, Eq, Hash, Structural)]
pub enum ResolutionKind {
    ImportDeclaration,
    DynamicImport,
}

/// Options of a resolution.
#[derive(Debug, Default, PartialEq, Eq)]
pub struct OnResolveOpts {
    /// Parameters that the resolved locator gets whatever the request says.
    pub force_params: Vec<StringKeyValue>,
}

impl Clone for OnResolveOpts {
    fn clone(&self) -> (out: Self)
        ensures
            out.force_params@ == self.force_params@,
    {
        OnResolveOpts { force_params: clone_params(&self.force_params) }
    }
}

/// A request to resolve what a module imports.
#[derive(Clone, Debug, PartialEq, Eq)]
pub struct OnResolveArgs {
    pub kind: ResolutionKind,
    pub request: String,
    /// The module that holds the import.
    pub issuer: Option<ModuleLocator>,
    /// Where the import stands in the issuer.
    pub span: Option<Span>,
    pub opts: OnResolveOpts,
}

/// A successful resolution.
#[derive(Clone, Debug, PartialEq, Eq)]
pub struct OnResolveResultData {
    pub locator: ModuleLocator,
}

/// The outcome of a resolution, and the locators it depends on.
#[derive(Debug, PartialEq, Eq)]
pub struct OnResolveResult {
    pub result: Result<OnResolveResultData, CompilationError>,
    pub dependencies: Vec<ModuleLocator>,
}

/// Options of a fetch.
#[derive(Clone, Copy, Debug, Default, PartialEq, Eq, Structural)]
pub struct OnFetchOpts {
}

/// A request to fetch a module.
#[derive(Clone, Debug, PartialEq, Eq)]
pub struct OnFetchArgs {
    pub locator: ModuleLocator,
    pub opts: OnFetchOpts,
}

/// A fetched module: its media type, and its content as text (base64 for
/// binary media types).
#[derive(Clone, Debug, PartialEq, Eq)]
pub struct OnFetchResultData {
    pub locator: ModuleLocator,
    pub mime_type: String,
    pub source: String,
}

/// The outcome of a fetch, and the locators it depends on.
#[derive(Debug, PartialEq, Eq)]
pub struct OnFetchResult {
    pub result: Result<OnFetchResultData, CompilationError>,
    pub dependencies: Vec<ModuleLocator>,
}

/// Options of the script pass.
#[derive(Clone, Copy, Debug, Default, PartialEq, Eq, Structural)]
pub struct OnTransformSwcOpts {
    /// Wrap the module in a call that registers it with the runtime.
    pub use_esfuse_runtime: bool,
    /// Wrap the module's body in a promise, so that it may await at its top
    /// level.
    pub promisify_body: bool,
}

/// Options of a transform.
#[derive(Debug, Default, PartialEq, Eq)]
pub struct OnTransformOpts {
    pub swc: OnTransformSwcOpts,
    pub static_resolutions: Vec<StringKeyValue>,
}

impl Clone for OnTransformOpts {
    fn clone(&self) -> (out: Self)
        ensures
            out.swc == self.swc,
            out.static_resolutions@ == self.static_resolutions@,
    {
        OnTransformOpts {
            swc: self.swc,
            static_resolutions: clone_params(&self.static_resolutions),
        }
    }
}

/// A request to transform a module.
#[derive(Clone, Debug, PartialEq, Eq)]
pub struct OnTransformArgs {
    pub locator: ModuleLocator,
    pub opts: OnTransformOpts,
}

/// An import found in a module.
#[derive(Debug, PartialEq, Eq)]
pub struct Import {
    pub kind: ResolutionKind,
    pub specifier: String,
    pub span: Span,
    /// Whether the import stands in a `try` block that has a handler, so that
    /// the module can live without it.
    pub optional: bool,
}

impl Clone for Import {
    fn clone(&self) -> (out: Self)
        ensures
            out == *self,
    {
        Import {
            kind: self.kind,
            specifier: self.specifier.clone(),
            span: self.span.clone(),
            optional: self.optional,
        }
    }
}

/// A transformed module.
#[derive(Clone, Debug, PartialEq, Eq)]
pub struct OnTransformResultData {
    pub mime_type: String,
    pub code: String,
    /// The source map, as JSON.
    pub map: Option<String>,
    pub imports: Vec<Import>,
}

/// The outcome of a transform, and the locators it depends on.
#[derive(Debug, PartialEq, Eq)]
pub struct OnTransformResult {
    pub result: Result<OnTransformResultData, CompilationError>,
    pub dependencies: Vec<ModuleLocator>,
}

/// What a bundle says of one module: its error if it has one, else its path
/// and what each of its imports resolved to.
#[derive(Clone, Debug, PartialEq, Eq)]
pub struct OnBundleModuleMeta {
    pub error: Option<CompilationError>,
    pub path: Option<String>,
    /// For each import specifier, the URL of its target, if it has one.
    pub resolutions: Vec<OptionStringKeyValue>,
}

/// A bundle.
#[derive(Clone, Debug, PartialEq, Eq)]
pub struct OnBundleResultData {
    /// The URL of the entry module.
    pub entry: String,
    pub mime_type: String,
    pub code: String,
    /// The source map, as JSON.
    pub map: String,
}

/// The outcome of bundling, and the locators it depends on.
#[derive(Debug, PartialEq, Eq)]
pub struct OnBundleResult {
    pub result: Result<OnBundleResultData, CompilationError>,
    pub dependencies: Vec<ModuleLocator>,
}

/// A hook: it is offered every key that its pattern matches.
#[derive(Clone, Debug, PartialEq, Eq)]
pub struct PluginHook {
    /// A regular expression.
    pub regexp: String,
    pub params: Vec<OptionStringKeyValue>,
}

/// The path of the locator's file: for a file locator, the directory of its
/// namespace joined with the rest of its specifier; none for another kind.
pub open spec fn physical_path_spec(roots: Map<Seq<char>, Seq<char>>, l: LocatorView) -> Option<
    Seq<char>,
> {
    if l.kind == ModuleLocatorKind::File {
        physical_of(roots, l.specifier)
    } else {
        None
    }
}

impl ModuleLocator {
    /// The path of the locator's file, if it has one.
    pub fn physical_path(&self, project: &Project) -> (out: Option<String>)
        ensures
            out is Some == physical_path_spec(project.roots(), self@) is Some,
            out is Some ==> out->0@ == physical_path_spec(project.roots(), self@)->0,
    {
        match self.kind {
            ModuleLocatorKind::File => project.path_from_ns_qualified(self.specifier.as_str()),
            _ => None,
        }
    }
}

/// Options of a traversal.
#[derive(Debug, PartialEq, Eq)]
pub struct OnBatchOpts {
    /// Let the entry module await at its top level.
    pub promisify_entry_point: bool,
    pub use_esfuse_runtime: bool,
    /// Follow the imports of each module.
    pub traverse_dependencies: bool,
    /// Follow imports into other packages.
    pub traverse_packages: bool,
    /// Follow imports into `node_modules`.
    pub traverse_vendors: bool,
    /// Follow imports of native modules.
    pub traverse_natives: bool,
    /// Where modules without a file of their own are placed.
    pub generated_module_folder: Option<String>,
}

impl OnBatchOpts {
    /// The options of a traversal that nothing was said about: every module
    /// is registered with the runtime, every import is followed, into other
    /// packages, vendors and native modules too, the entry is not promisified,
    /// and there is no folder for generated modules.
    pub open spec fn default_spec() -> OnBatchOpts {
        OnBatchOpts {
            promisify_entry_point: false,
            use_esfuse_runtime: true,
            traverse_dependencies: true,
            traverse_packages: true,
            traverse_vendors: true,
            traverse_natives: true,
            generated_module_folder: None,
        }
    }
}

impl Default for OnBatchOpts {
    fn default() -> (out: Self)
        ensures
            out == OnBatchOpts::default_spec(),
    {
        OnBatchOpts {
            promisify_entry_point: false,
            use_esfuse_runtime: true,
            traverse_dependencies: true,
            traverse_packages: true,
            traverse_vendors: true,
            traverse_natives: true,
            generated_module_folder: None,
        }
    }
}

impl Clone for OnBatchOpts {
    fn clone(&self) -> (out: Self)
        ensures
            out == *self,
    {
        OnBatchOpts {
            promisify_entry_point: self.promisify_entry_point,
            use_esfuse_runtime: self.use_esfuse_runtime,
            traverse_dependencies: self.traverse_dependencies,
            traverse_packages: self.traverse_packages,
            traverse_vendors: self.traverse_vendors,
            traverse_natives: self.traverse_natives,
            generated_module_folder: self.generated_module_folder.clone(),
        }
    }
}

/// A request to traverse the modules that the entries reach.
#[derive(Clone, Debug, PartialEq, Eq)]
pub struct OnBatchArgs {
    pub locators: Vec<ModuleLocator>,
    pub opts: OnBatchOpts,
}

/// What one import of a module resolved to: a module to traverse, or
/// nothing, where the import stays as it is written.
#[derive(Clone, Debug, PartialEq, Eq)]
pub struct Resolution {
    pub specifier: String,
    pub target: Option<ModuleLocator>,
}

/// What a `Resolution` stands for.
pub struct ResolutionView {
    pub specifier: Seq<char>,
    pub target: Option<LocatorView>,
}

impl View for Resolution {
    type V = ResolutionView;

    open spec fn view(&self) -> ResolutionView {
        ResolutionView {
            specifier: self.specifier@,
            target: match self.target {
                Some(l) => Some(l@),
                None => None,
            },
        }
    }
}

/// The resolutions of a list, each taken by its view.
pub open spec fn resolutions_view(resolutions: Seq<Resolution>) -> Seq<ResolutionView> {
    resolutions.map_values(|r: Resolution| r@)
}

/// A traversed module.
#[derive(Clone, Debug, PartialEq, Eq)]
pub struct OnBatchModule {
    pub locator: ModuleLocator,
    pub mime_type: String,
    pub code: String,
    /// The source map, as JSON.
    pub map: Option<String>,
    /// The number of line feeds in the code.
    pub newlines: usize,
    pub resolutions: Vec<Resolution>,
    /// The path that the module has among the traversed modules.
    pub imaginary_path: Option<String>,
}

impl OnBatchModule {
    /// The module of a locator, its transformed code and its resolutions.
    /// It has no path yet.
    pub fn new(
        locator: ModuleLocator,
        transform: OnTransformResultData,
        resolutions: Vec<Resolution>,
    ) -> (out: Self)
        ensures
            out.locator == locator,
            out.mime_type == transform.mime_type,
            out.code == transform.code,
            out.map == transform.map,
            out.newlines == newline_count(transform.code@),
            out.resolutions == resolutions,
            out.imaginary_path is None,
    {
        let newlines = count_newlines(transform.code.as_str());
        OnBatchModule {
            locator,
            mime_type: transform.mime_type,
            code: transform.code,
            map: transform.map,
            newlines,
            resolutions,
            imaginary_path: None,
        }
    }

    /// Replaces the code, and recounts its line feeds.
    pub fn set_code(&mut self, code: String)
        ensures
            final(self).code == code,
            final(self).newlines == newline_count(code@),
            final(self).locator == old(self).locator,
            final(self).mime_type == old(self).mime_type,
            final(self).map == old(self).map,
            final(self).resolutions == old(self).resolutions,
            final(self).imaginary_path == old(self).imaginary_path,
    {
        self.newlines = count_newlines(code.as_str());
        self.code = code;
    }

    /// Replaces the source map.
    pub fn set_map(&mut self, map: Option<String>)
        ensures
            final(self).map == map,
            final(self).locator == old(self).locator,
            final(self).mime_type == old(self).mime_type,
            final(self).code == old(self).code,
            final(self).newlines == old(self).newlines,
            final(self).resolutions == old(self).resolutions,
            final(self).imaginary_path == old(self).imaginary_path,
    {
        self.map = map;
    }
}

/// The outcome of traversing one module.
#[derive(Debug, PartialEq, Eq)]
pub struct OnBatchModuleResult {
    pub locator: ModuleLocator,
    pub result: Result<OnBatchModule, CompilationError>,
    pub dependencies: Vec<ModuleLocator>,
}

/// The outcome of a traversal: one result for each module, each URL once.
#[derive(Clone, Debug, PartialEq, Eq)]
pub struct OnBatchResult {
    pub results: Vec<OnBatchModuleResult>,
}

/// Options of bundling.
#[derive(Clone, Debug, Default, PartialEq, Eq)]
pub struct OnBundleOpts {
    pub batch: OnBatchOpts,
    /// Let the bundle export what its entry exports.
    pub require_on_load: bool,
    /// A module to put in front of every other.
    pub runtime: Option<ModuleLocator>,
}

/// A request to bundle what an entry reaches.
#[derive(Clone, Debug, PartialEq, Eq)]
pub struct OnBundleArgs {
    pub locator: ModuleLocator,
    pub opts: OnBundleOpts,
}

impl Clone for OnResolveResult {
    fn clone(&self) -> (out: Self) {
        OnResolveResult {
            result: match &self.result {
                Ok(data) => Ok(data.clone()),
                Err(err) => Err(err.clone()),
            },
            dependencies: self.dependencies.clone(),
        }
    }
}

impl Clone for OnFetchResult {
    fn clone(&self) -> (out: Self) {
        OnFetchResult {
            result: match &self.result {
                Ok(data) => Ok(data.clone()),
                Err(err) => Err(err.clone()),
            },
            dependencies: self.dependencies.clone(),
        }
    }
}

impl Clone for OnTransformResult {
    fn clone(&self) -> (out: Self) {
        OnTransformResult {
            result: match &self.result {
                Ok(data) => Ok(data.clone()),
                Err(err) => Err(err.clone()),
            },
            dependencies: self.dependencies.clone(),
        }
    }
}

impl Clone for OnBundleResult {
    fn clone(&self) -> (out: Self) {
        OnBundleResult {
            result: match &self.result {
                Ok(data) => Ok(data.clone()),
                Err(err) => Err(err.clone()),
            },
            dependencies: self.dependencies.clone(),
        }
    }
}

impl Clone for OnBatchModuleResult {
    fn clone(&self) -> (out: Self) {
        OnBatchModuleResult {
            locator: self.locator.clone(),
            result: match &self.result {
                Ok(data) => Ok(data.clone()),
                Err(err) => Err(err.clone()),
            },
            dependencies: self.dependencies.clone(),
        }
    }
}

impl OnBatchModule {
    /// Whether the import specifiers of the module are rewritten once the
    /// traversal is over: those of a script are.
    pub open spec fn is_rewritten(&self) -> bool {
        self.mime_type@ == "text/javascript"@
    }

    /// Whether the import specifiers of the module are rewritten once the
    /// traversal is over.
    pub fn needs_rewrite(&self) -> (out: bool)
        ensures
            out == self.is_rewritten(),
    {
        same(self.mime_type.as_str(), "text/javascript")
    }

    /// Takes over what rewriting the import specifiers gave. A script whose
    /// rewrite succeeded gets the rewritten code, with its line feeds
    /// recounted, and the rewritten source map. A module that is no script,
    /// and one whose rewrite failed, stays as it is.
    pub fn accept_rewrite(&mut self, rewritten: OnTransformResult)
        ensures
            final(self).locator == old(self).locator,
            final(self).mime_type == old(self).mime_type,
            final(self).resolutions == old(self).resolutions,
            final(self).imaginary_path == old(self).imaginary_path,
            if old(self).is_rewritten() && rewritten.result is Ok {
                &&& final(self).code == rewritten.result->Ok_0.code
                &&& final(self).newlines == newline_count(rewritten.result->Ok_0.code@)
                &&& final(self).map == rewritten.result->Ok_0.map
            } else {
                &&& final(self).code == old(self).code
                &&& final(self).newlines == old(self).newlines
                &&& final(self).map == old(self).map
            },
    {
        if self.needs_rewrite() {
            match rewritten.result {
                Ok(data) => {
                    self.set_code(data.code);
                    self.set_map(data.map);
                },
                Err(_) => {},
            }
        }
    }
}

} // verus!
