//! Traversal: from the entries, through what each module imports, to the
//! set of modules that make up a build.

use crate::classes::project::Project;
use crate::paths::{is_absolute, relative, relative_to};
use crate::text::{chars_of, contains_text, ends_with, finishes_with, includes, same};
use crate::types::{
    LocatorView, ModuleLocator, ModuleLocatorKind, OnBatchArgs, OnBatchModule,
    OnBatchModuleResult, OnBatchOpts, OnBatchResult, OnTransformOpts, OnTransformResult,
    OnTransformSwcOpts, Resolution, ResolutionView, StringKeyValue, resolutions_view,
};
use crate::utils::errors::{
    copy_diagnostics, diagnostics_view, CompilationError, Diagnostic, DiagnosticView,
};
use vstd::prelude::*;

verus! {

/// What resolving one import gave.
#[derive(Debug, PartialEq, Eq)]
pub struct ImportResolution {
    /// The import as it is written.
    pub specifier: String,
    /// Whether the module can live without the import.
    pub optional: bool,
    /// The module that the import resolved to, or why it did not resolve.
    pub result: Result<ModuleLocator, CompilationError>,
    /// The directory of the package that holds the target, if it is known.
    pub package_dir: Option<String>,
}

/// What an `ImportResolution` stands for.
pub struct ImportResolutionView {
    pub specifier: Seq<char>,
    pub optional: bool,
    pub result: Result<LocatorView, Seq<DiagnosticView>>,
    pub package_dir: Option<Seq<char>>,
}

impl View for ImportResolution {
    type V = ImportResolutionView;

    open spec fn view(&self) -> ImportResolutionView {
        ImportResolutionView {
            specifier: self.specifier@,
            optional: self.optional,
            result: match self.result {
                Ok(l) => Ok(l@),
                Err(e) => Err(e@),
            },
            package_dir: text_view(self.package_dir),
        }
    }
}

/// A text that may be absent, by its view.
pub open spec fn text_view(text: Option<String>) -> Option<Seq<char>> {
    match text {
        Some(t) => Some(t@),
        None => None,
    }
}

/// The resolutions of a list, each taken by its view.
pub open spec fn imports_view(resolved: Seq<ImportResolution>) -> Seq<ImportResolutionView> {
    resolved.map_values(|r: ImportResolution| r@)
}

/// Whether the traversal follows an import to its target. It does not
/// follow it to an external module; to a native module, unless native modules
/// are traversed; to a module below `node_modules`, unless vendors are
/// traversed; nor into another package than the issuer's, where both packages
/// are known, unless packages are traversed.
pub open spec fn is_followed(
    opts: OnBatchOpts,
    issuer_dir: Option<Seq<char>>,
    target: LocatorView,
    target_dir: Option<Seq<char>>,
) -> bool {
    &&& target.kind != ModuleLocatorKind::External
    &&& opts.traverse_natives || !ends_with(target.specifier, ".node"@)
    &&& opts.traverse_vendors || !contains_text(target.url, "/node_modules/"@)
    &&& opts.traverse_packages || target_dir is None || issuer_dir is None || target_dir
        == issuer_dir
}

/// Whether the traversal follows an import to its target.
pub fn follows(
    opts: &OnBatchOpts,
    issuer_dir: &Option<String>,
    target: &ModuleLocator,
    target_dir: &Option<String>,
) -> (out: bool)
    ensures
        out == is_followed(*opts, text_view(*issuer_dir), target@, text_view(*target_dir)),
{
    if target.kind == ModuleLocatorKind::External {
        return false;
    }
    if !opts.traverse_natives && finishes_with(
        &chars_of(target.specifier.as_str()),
        &chars_of(".node"),
    ) {
        return false;
    }
    if !opts.traverse_vendors && includes(
        &chars_of(target.url.as_str()),
        &chars_of("/node_modules/"),
    ) {
        return false;
    }
    if !opts.traverse_packages {
        match (target_dir, issuer_dir) {
            (Some(target_dir), Some(issuer_dir)) => {
                if !same(target_dir.as_str(), issuer_dir.as_str()) {
                    return false;
                }
            },
            _ => {},
        }
    }
    true
}

/// The position of the resolution of a specifier in a list, or the length
/// of the list where the specifier has none.
pub open spec fn position_of(resolutions: Seq<ResolutionView>, specifier: Seq<char>) -> int
    decreases resolutions.len(),
{
    if resolutions.len() == 0 {
        0
    } else if resolutions[0].specifier == specifier {
        0
    } else {
        1 + position_of(resolutions.drop_first(), specifier)
    }
}

/// `position_of` is the first position that holds the specifier.
pub proof fn lemma_position_of(resolutions: Seq<ResolutionView>, specifier: Seq<char>)
    ensures
        0 <= position_of(resolutions, specifier) <= resolutions.len(),
        forall|j: int|
            0 <= j < position_of(resolutions, specifier) ==> (#[trigger] resolutions[j]).specifier
                != specifier,
        position_of(resolutions, specifier) < resolutions.len() ==> resolutions[position_of(
            resolutions,
            specifier,
        )].specifier == specifier,
    decreases resolutions.len(),
{
    if resolutions.len() > 0 && resolutions[0].specifier != specifier {
        let rest = resolutions.drop_first();
        lemma_position_of(rest, specifier);
        assert forall|j: int| 0 <= j < position_of(resolutions, specifier) implies (
        #[trigger] resolutions[j]).specifier != specifier by {
            if j > 0 {
                assert(resolutions[j] == rest[j - 1]);
            }
        }
        if position_of(rest, specifier) < rest.len() {
            assert(resolutions[position_of(resolutions, specifier)] == rest[position_of(
                rest,
                specifier,
            )]);
        }
    }
}

/// A list of resolutions with one more: it replaces the resolution of the
/// same specifier where there is one, and else goes to the end.
pub open spec fn with_resolution(resolutions: Seq<ResolutionView>, r: ResolutionView) -> Seq<
    ResolutionView,
> {
    let at = position_of(resolutions, r.specifier);
    if 0 <= at < resolutions.len() {
        resolutions.update(at, r)
    } else {
        resolutions.push(r)
    }
}

/// The resolution that one resolved import stands for: its target where the
/// traversal follows it, nothing where it does not.
pub open spec fn resolution_of(
    opts: OnBatchOpts,
    issuer_dir: Option<Seq<char>>,
    specifier: Seq<char>,
    target: LocatorView,
    target_dir: Option<Seq<char>>,
) -> ResolutionView {
    ResolutionView {
        specifier,
        target: if is_followed(opts, issuer_dir, target, target_dir) {
            Some(target)
        } else {
            None
        },
    }
}

/// The resolutions of a module: one for each specifier that resolved, in
/// the order in which the specifiers first resolved. Where a specifier
/// resolved more than once, the last time counts.
pub open spec fn resolutions_of(
    opts: OnBatchOpts,
    issuer_dir: Option<Seq<char>>,
    resolved: Seq<ImportResolutionView>,
) -> Seq<ResolutionView>
    decreases resolved.len(),
{
    if resolved.len() == 0 {
        Seq::empty()
    } else {
        let front = resolutions_of(opts, issuer_dir, resolved.drop_last());
        let last = resolved.last();
        match last.result {
            Ok(target) => with_resolution(
                front,
                resolution_of(opts, issuer_dir, last.specifier, target, last.package_dir),
            ),
            Err(_) => front,
        }
    }
}

/// The diagnostics of a module's imports: those of every import that did
/// not resolve and that the module cannot live without, in the order of the
/// imports.
pub open spec fn resolution_errors_of(resolved: Seq<ImportResolutionView>) -> Seq<DiagnosticView>
    decreases resolved.len(),
{
    if resolved.len() == 0 {
        Seq::empty()
    } else {
        let front = resolution_errors_of(resolved.drop_last());
        let last = resolved.last();
        match last.result {
            Ok(_) => front,
            Err(diagnostics) => if last.optional {
                front
            } else {
                front + diagnostics
            },
        }
    }
}

fn find_resolution(resolutions: &Vec<Resolution>, specifier: &str) -> (at: usize)
    ensures
        at as int == position_of(resolutions_view(resolutions@), specifier@),
        at <= resolutions.len(),
{
    let ghost view = resolutions_view(resolutions@);
    let mut i: usize = 0;
    assert(view.skip(0) =~= view);
    while i < resolutions.len()
        invariant
            i <= resolutions.len(),
            view == resolutions_view(resolutions@),
            position_of(view, specifier@) == i + position_of(view.skip(i as int), specifier@),
        decreases resolutions.len() - i,
    {
        assert(view.skip(i as int)[0] == resolutions@[i as int]@);
        if same(resolutions[i].specifier.as_str(), specifier) {
            return i;
        }
        assert(view.skip(i as int).drop_first() =~= view.skip(i + 1));
        i += 1;
    }
    i
}

fn put_resolution(resolutions: &mut Vec<Resolution>, r: Resolution)
    ensures
        resolutions_view(final(resolutions)@) == with_resolution(
            resolutions_view(old(resolutions)@),
            r@,
        ),
{
    let at = find_resolution(resolutions, r.specifier.as_str());
    if at < resolutions.len() {
        proof {
            assert(resolutions_view(resolutions@.update(at as int, r)) =~= resolutions_view(
                resolutions@,
            ).update(at as int, r@));
        }
        resolutions.set(at, r);
    } else {
        proof {
            assert(resolutions_view(resolutions@.push(r)) =~= resolutions_view(
                resolutions@,
            ).push(r@));
        }
        resolutions.push(r);
    }
}

/// The resolutions and the diagnostics of a module, from what resolving each
/// of its imports gave.
pub fn resolve_all(
    issuer_dir: &Option<String>,
    resolved: &Vec<ImportResolution>,
    bundle_opts: &OnBatchOpts,
) -> (out: (Vec<Resolution>, Vec<Diagnostic>))
    ensures
        resolutions_view(out.0@) == resolutions_of(
            *bundle_opts,
            text_view(*issuer_dir),
            imports_view(resolved@),
        ),
        diagnostics_view(out.1@) == resolution_errors_of(imports_view(resolved@)),
{
    let mut resolutions: Vec<Resolution> = Vec::new();
    let mut resolution_errors: Vec<Diagnostic> = Vec::new();
    let ghost view = imports_view(resolved@);
    let ghost issuer = text_view(*issuer_dir);
    let mut i: usize = 0;
    assert(view.take(0) =~= Seq::empty());
    assert(resolutions_view(resolutions@) =~= Seq::empty());
    assert(diagnostics_view(resolution_errors@) =~= Seq::empty());
    while i < resolved.len()
        invariant
            i <= resolved.len(),
            view == imports_view(resolved@),
            issuer == text_view(*issuer_dir),
            resolutions_view(resolutions@) == resolutions_of(
                *bundle_opts,
                issuer,
                view.take(i as int),
            ),
            diagnostics_view(resolution_errors@) == resolution_errors_of(view.take(i as int)),
        decreases resolved.len() - i,
    {
        let import = &resolved[i];
        proof {
            assert(view.take(i + 1).drop_last() =~= view.take(i as int));
            assert(view.take(i + 1).last() == import@);
        }
        match &import.result {
            Ok(target) => {
                let kept = if follows(bundle_opts, issuer_dir, target, &import.package_dir) {
                    Some(target.clone())
                } else {
                    None
                };
                put_resolution(
                    &mut resolutions,
                    Resolution { specifier: import.specifier.clone(), target: kept },
                );
            },
            Err(err) => {
                if !import.optional {
                    let mut more = copy_diagnostics(&err.diagnostics);
                    proof {
                        assert(diagnostics_view(resolution_errors@ + more@) =~= diagnostics_view(
                            resolution_errors@,
                        ) + diagnostics_view(more@));
                    }
                    resolution_errors.append(&mut more);
                }
            },
        }
        i += 1;
    }
    assert(view.take(resolved@.len() as int) =~= view);
    (resolutions, resolution_errors)
}

/// A module whose every failed import is one it can live without has no
/// diagnostics from its imports.
pub proof fn lemma_optional_failures_are_silent(resolved: Seq<ImportResolutionView>)
    requires
        forall|i: int|
            0 <= i < resolved.len() && (#[trigger] resolved[i]).result is Err
                ==> resolved[i].optional,
    ensures
        resolution_errors_of(resolved).len() == 0,
    decreases resolved.len(),
{
    if resolved.len() > 0 {
        let front = resolved.drop_last();
        assert forall|i: int| 0 <= i < front.len() && (#[trigger] front[i]).result is Err implies
            front[i].optional by {
            assert(front[i] == resolved[i]);
        }
        lemma_optional_failures_are_silent(front);
        assert(resolved.last() == resolved[resolved.len() - 1]);
    }
}

/// The URLs of the targets of a list of resolutions, in the order of the
/// list; a resolution without a target has none.
pub open spec fn target_urls(resolutions: Seq<ResolutionView>) -> Seq<Seq<char>>
    decreases resolutions.len(),
{
    if resolutions.len() == 0 {
        Seq::empty()
    } else {
        match resolutions.last().target {
            Some(t) => target_urls(resolutions.drop_last()).push(t.url),
            None => target_urls(resolutions.drop_last()),
        }
    }
}

/// The locators of a list, each taken by its view.
pub open spec fn locators_view(locators: Seq<ModuleLocator>) -> Seq<LocatorView> {
    locators.map_values(|l: ModuleLocator| l@)
}

/// The targets of a list of resolutions, in the order of the list; a
/// resolution without a target has none.
pub open spec fn targets_of(resolutions: Seq<ResolutionView>) -> Seq<LocatorView>
    decreases resolutions.len(),
{
    if resolutions.len() == 0 {
        Seq::empty()
    } else {
        match resolutions.last().target {
            Some(t) => targets_of(resolutions.drop_last()).push(t),
            None => targets_of(resolutions.drop_last()),
        }
    }
}

/// The URLs of a list of locators.
pub open spec fn urls_of(locators: Seq<ModuleLocator>) -> Seq<Seq<char>> {
    locators.map_values(|l: ModuleLocator| l.url@)
}

/// The texts of a list of strings.
pub open spec fn texts_of(texts: Seq<String>) -> Seq<Seq<char>> {
    texts.map_values(|t: String| t@)
}

/// The URLs that a list of results is filed under.
pub open spec fn result_urls_of(results: Seq<OnBatchModuleResult>) -> Seq<Seq<char>> {
    results.map_values(|r: OnBatchModuleResult| r.locator.url@)
}

/// The position of the first pending URL that has not been visited, or the
/// number of pending URLs where all have been.
pub open spec fn first_fresh(pending: Seq<Seq<char>>, visited: Seq<Seq<char>>) -> int
    decreases pending.len(),
{
    if pending.len() == 0 {
        0
    } else if !visited.contains(pending[0]) {
        0
    } else {
        1 + first_fresh(pending.drop_first(), visited)
    }
}

/// `first_fresh` is the first position of a URL that is not visited.
pub proof fn lemma_first_fresh(pending: Seq<Seq<char>>, visited: Seq<Seq<char>>)
    ensures
        0 <= first_fresh(pending, visited) <= pending.len(),
        forall|j: int|
            0 <= j < first_fresh(pending, visited) ==> visited.contains(#[trigger] pending[j]),
        first_fresh(pending, visited) < pending.len() ==> !visited.contains(
            pending[first_fresh(pending, visited)],
        ),
    decreases pending.len(),
{
    if pending.len() > 0 && visited.contains(pending[0]) {
        let rest = pending.drop_first();
        lemma_first_fresh(rest, visited);
        assert forall|j: int| 0 <= j < first_fresh(pending, visited) implies visited.contains(
            #[trigger] pending[j],
        ) by {
            if j > 0 {
                assert(pending[j] == rest[j - 1]);
            }
        }
        if first_fresh(rest, visited) < rest.len() {
            assert(pending[first_fresh(pending, visited)] == rest[first_fresh(rest, visited)]);
        }
    }
}

/// Whether a URL may be traversed although vendors are not: it is an entry,
/// or it does not lie below `node_modules`.
pub open spec fn is_vendor_free(entries: Seq<Seq<char>>, url: Seq<char>) -> bool {
    entries.contains(url) || !contains_text(url, "/node_modules/"@)
}

/// What a traversal hands out: a module to transform, and the options of
/// its transform.
#[derive(Clone, Debug, PartialEq, Eq)]
pub struct BatchJob {
    pub locator: ModuleLocator,
    pub opts: OnTransformOpts,
}

/// The state of a traversal: the modules still to look at, the modules
/// handed out, and the results recorded.
#[derive(Debug)]
pub struct Traversal {
    opts: OnBatchOpts,
    entries: Vec<ModuleLocator>,
    pending: Vec<ModuleLocator>,
    visited: Vec<String>,
    results: Vec<OnBatchModuleResult>,
}

/// Whether a result is what recording a module gives. A failed transform
/// gives its error. A transform whose imports left diagnostics gives those.
/// Any other gives the module: the transformed code with its count of line
/// feeds, the resolutions of its imports, and its path among the traversed
/// modules.
pub open spec fn is_record_of(
    r: OnBatchModuleResult,
    roots: Map<Seq<char>, Seq<char>>,
    opts: OnBatchOpts,
    locator: ModuleLocator,
    transform: OnTransformResult,
    issuer_dir: Option<Seq<char>>,
    resolved: Seq<ImportResolutionView>,
) -> bool {
    &&& r.locator@ == locator@
    &&& r.dependencies@.len() == 0
    &&& match transform.result {
        Err(e) => r.result is Err && r.result->Err_0@ == e@,
        Ok(t) => if resolution_errors_of(resolved).len() > 0 {
            r.result is Err && r.result->Err_0@ == resolution_errors_of(resolved)
        } else {
            &&& r.result is Ok
            &&& r.result->Ok_0.locator@ == locator@
            &&& r.result->Ok_0.mime_type@ == t.mime_type@
            &&& r.result->Ok_0.code@ == t.code@
            &&& text_view(r.result->Ok_0.map) == text_view(t.map)
            &&& r.result->Ok_0.newlines == crate::text::newline_count(t.code@)
            &&& resolutions_view(r.result->Ok_0.resolutions@) == resolutions_of(
                opts,
                issuer_dir,
                resolved,
            )
            &&& text_view(r.result->Ok_0.imaginary_path) == crate::utils::virtual_path_spec(
                roots,
                locator@,
                t.mime_type@,
                text_view(opts.generated_module_folder),
            )
        },
    }
}

impl Traversal {
    /// The options of the traversal.
    pub closed spec fn options(&self) -> OnBatchOpts {
        self.opts
    }

    /// The URLs of the entries.
    pub closed spec fn entry_urls(&self) -> Seq<Seq<char>> {
        urls_of(self.entries@)
    }

    /// The URLs still to look at, first come first.
    pub closed spec fn pending_urls(&self) -> Seq<Seq<char>> {
        urls_of(self.pending@)
    }

    /// The locators still to look at, first come first; their URLs are
    /// `pending_urls`.
    pub closed spec fn pending_locators(&self) -> Seq<LocatorView> {
        locators_view(self.pending@)
    }

    /// The URLs of the modules handed out, in the order they were handed
    /// out.
    pub closed spec fn visited_urls(&self) -> Seq<Seq<char>> {
        texts_of(self.visited@)
    }

    /// The results recorded, in the order they were recorded.
    pub closed spec fn recorded(&self) -> Seq<OnBatchModuleResult> {
        self.results@
    }

    /// The URLs that the results are filed under.
    pub open spec fn result_urls(&self) -> Seq<Seq<char>> {
        result_urls_of(self.recorded())
    }

    /// Whether a module was handed out and its result is still awaited.
    pub open spec fn in_flight(&self, url: Seq<char>) -> bool {
        self.visited_urls().contains(url) && !self.result_urls().contains(url)
    }

    /// Whether the state is one that a traversal can be in: no URL was
    /// handed out twice, no URL has two results, every result is that of a
    /// module handed out, and, unless vendors are traversed, every URL handed
    /// out or still to look at is an entry or does not lie below
    /// `node_modules`.
    pub open spec fn wf(&self) -> bool {
        &&& self.visited_urls().no_duplicates()
        &&& self.result_urls().no_duplicates()
        &&& forall|i: int|
            0 <= i < self.result_urls().len() ==> self.visited_urls().contains(
                #[trigger] self.result_urls()[i],
            )
        &&& !self.options().traverse_vendors ==> {
            &&& forall|i: int|
                0 <= i < self.pending_urls().len() ==> is_vendor_free(
                    self.entry_urls(),
                    #[trigger] self.pending_urls()[i],
                )
            &&& forall|i: int|
                0 <= i < self.visited_urls().len() ==> is_vendor_free(
                    self.entry_urls(),
                    #[trigger] self.visited_urls()[i],
                )
        }
    }

    /// Whether the traversal is over: nothing is left to look at and every
    /// module handed out has its result.
    pub open spec fn is_done(&self) -> bool {
        &&& forall|i: int|
            0 <= i < self.pending_urls().len() ==> self.visited_urls().contains(
                #[trigger] self.pending_urls()[i],
            )
        &&& forall|i: int|
            0 <= i < self.visited_urls().len() ==> self.result_urls().contains(
                #[trigger] self.visited_urls()[i],
            )
    }

    /// A traversal that starts at the given entries.
    pub fn new(args: OnBatchArgs) -> (out: Self)
        ensures
            out.wf(),
            out.options() == args.opts,
            out.entry_urls() == urls_of(args.locators@),
            out.pending_urls() == urls_of(args.locators@),
            out.pending_locators() == locators_view(args.locators@),
            out.visited_urls().len() == 0,
            out.recorded().len() == 0,
    {
        let mut pending: Vec<ModuleLocator> = Vec::new();
        let mut i: usize = 0;
        while i < args.locators.len()
            invariant
                i <= args.locators.len(),
                urls_of(pending@) == urls_of(args.locators@).take(i as int),
                locators_view(pending@) == locators_view(args.locators@).take(i as int),
            decreases args.locators.len() - i,
        {
            let copy = args.locators[i].clone();
            assert(locators_view(pending@.push(copy)) =~= locators_view(pending@).push(copy@));
            assert(locators_view(args.locators@).take(i + 1) =~= locators_view(
                args.locators@,
            ).take(i as int).push(args.locators@[i as int]@));
            assert(urls_of(pending@.push(copy)) =~= urls_of(pending@).push(copy.url@));
            assert(urls_of(args.locators@).take(i + 1) =~= urls_of(args.locators@).take(
                i as int,
            ).push(args.locators@[i as int].url@));
            pending.push(copy);
            i += 1;
        }
        assert(urls_of(args.locators@).take(args.locators@.len() as int) =~= urls_of(
            args.locators@,
        ));
        assert(locators_view(args.locators@).take(args.locators@.len() as int)
            =~= locators_view(args.locators@));
        let out = Traversal {
            opts: args.opts,
            entries: args.locators,
            pending,
            visited: Vec::new(),
            results: Vec::new(),
        };
        assert(out.visited_urls() =~= Seq::empty());
        assert(out.result_urls() =~= Seq::empty());
        out
    }

    fn was_visited(&self, url: &str) -> (out: bool)
        ensures
            out == self.visited_urls().contains(url@),
    {
        let mut i: usize = 0;
        while i < self.visited.len()
            invariant
                i <= self.visited.len(),
                forall|j: int| 0 <= j < i ==> self.visited_urls()[j] != url@,
            decreases self.visited.len() - i,
        {
            if same(self.visited[i].as_str(), url) {
                assert(self.visited_urls()[i as int] == url@);
                return true;
            }
            i += 1;
        }
        false
    }

    fn has_result(&self, url: &str) -> (out: bool)
        ensures
            out == self.result_urls().contains(url@),
    {
        let mut i: usize = 0;
        while i < self.results.len()
            invariant
                i <= self.results.len(),
                forall|j: int| 0 <= j < i ==> self.result_urls()[j] != url@,
            decreases self.results.len() - i,
        {
            if same(self.results[i].locator.url.as_str(), url) {
                assert(self.result_urls()[i as int] == url@);
                return true;
            }
            i += 1;
        }
        false
    }

    /// Hands out the next module to transform: the first pending one that
    /// was not handed out before. Pending modules before it are dropped. The
    /// first module ever handed out is the entry: its body is promisified
    /// where the options ask for it.
    pub fn next_job(&mut self) -> (out: Option<BatchJob>)
        requires
            old(self).wf(),
        ensures
            final(self).wf(),
            is_handing_out(*old(self), *final(self), out),
    {
        let ghost pending = self.pending_urls();
        let ghost visited = self.visited_urls();
        let mut k: usize = 0;
        assert(pending.skip(0) =~= pending);
        while k < self.pending.len() && self.was_visited(self.pending[k].url.as_str())
            invariant
                k <= self.pending.len(),
                *self == *old(self),
                pending == self.pending_urls(),
                visited == self.visited_urls(),
                first_fresh(pending, visited) == k + first_fresh(pending.skip(k as int), visited),
            decreases self.pending.len() - k,
        {
            assert(pending.skip(k as int)[0] == pending[k as int]);
            assert(pending.skip(k as int).drop_first() =~= pending.skip(k + 1));
            k += 1;
        }
        if k == self.pending.len() {
            self.pending = Vec::new();
            assert(self.pending_urls() =~= Seq::empty());
            assert(self.pending_locators() =~= Seq::empty());
            return None;
        }
        assert(pending.skip(k as int)[0] == pending[k as int]);
        let locator = self.pending[k].clone();
        let promisify_body = self.visited.len() == 0 && self.opts.promisify_entry_point;
        let rest = self.pending.split_off(k + 1);
        self.pending = rest;
        self.visited.push(locator.url.clone());
        proof {
            assert(self.pending_locators() =~= old(self).pending_locators().skip(k + 1));
            assert(old(self).pending_locators()[k as int] == old(self).pending@[k as int]@);
            assert(self.pending_urls() =~= pending.skip(k + 1));
            assert(self.visited_urls() =~= visited.push(locator.url@));
            assert(self.result_urls() == old(self).result_urls());
            assert forall|i: int| 0 <= i < self.result_urls().len() implies self.visited_urls().contains(
                #[trigger] self.result_urls()[i],
            ) by {
                let u = self.result_urls()[i];
                assert(visited.contains(u));
                let j = choose|j: int| 0 <= j < visited.len() && visited[j] == u;
                assert(self.visited_urls()[j] == u);
            }
            if !self.options().traverse_vendors {
                assert forall|i: int| 0 <= i < self.pending_urls().len() implies is_vendor_free(
                    self.entry_urls(),
                    #[trigger] self.pending_urls()[i],
                ) by {
                    assert(self.pending_urls()[i] == pending[k + 1 + i]);
                }
                assert forall|i: int| 0 <= i < self.visited_urls().len() implies is_vendor_free(
                    self.entry_urls(),
                    #[trigger] self.visited_urls()[i],
                ) by {
                    if i < visited.len() {
                        assert(self.visited_urls()[i] == visited[i]);
                    } else {
                        assert(self.visited_urls()[i] == pending[k as int]);
                    }
                }
            }
        }
        Some(
            BatchJob {
                locator,
                opts: OnTransformOpts {
                    swc: OnTransformSwcOpts {
                        use_esfuse_runtime: self.opts.use_esfuse_runtime,
                        promisify_body,
                    },
                    static_resolutions: Vec::new(),
                },
            },
        )
    }
}

/// Whether no target of the resolutions lies below `node_modules`.
pub open spec fn targets_avoid_vendors(resolutions: Seq<ResolutionView>) -> bool {
    forall|i: int|
        0 <= i < resolutions.len() && (#[trigger] resolutions[i]).target is Some
            ==> !contains_text(resolutions[i].target->0.url, "/node_modules/"@)
}

/// Unless vendors are traversed, no resolution of a module has a target
/// below `node_modules`.
pub proof fn lemma_resolutions_avoid_vendors(
    opts: OnBatchOpts,
    issuer_dir: Option<Seq<char>>,
    resolved: Seq<ImportResolutionView>,
)
    requires
        !opts.traverse_vendors,
    ensures
        targets_avoid_vendors(resolutions_of(opts, issuer_dir, resolved)),
    decreases resolved.len(),
{
    if resolved.len() > 0 {
        let front = resolutions_of(opts, issuer_dir, resolved.drop_last());
        lemma_resolutions_avoid_vendors(opts, issuer_dir, resolved.drop_last());
        let last = resolved.last();
        match last.result {
            Ok(target) => {
                let r = resolution_of(opts, issuer_dir, last.specifier, target, last.package_dir);
                lemma_position_of(front, r.specifier);
                let out = with_resolution(front, r);
                assert forall|i: int|
                    0 <= i < out.len() && (#[trigger] out[i]).target is Some implies !contains_text(
                    out[i].target->0.url,
                    "/node_modules/"@,
                ) by {
                    if out[i] != r {
                        assert(out[i] == front[i]);
                    }
                }
            },
            Err(_) => {},
        }
    }
}

/// Whether a URL is that of the target of one of the resolutions.
pub open spec fn is_target_url(resolutions: Seq<ResolutionView>, url: Seq<char>) -> bool {
    exists|j: int|
        0 <= j < resolutions.len() && (#[trigger] resolutions[j]).target is Some
            && resolutions[j].target->0.url == url
}

/// The URLs of the targets are the URLs of the targets of the resolutions.
pub proof fn lemma_target_urls(resolutions: Seq<ResolutionView>)
    ensures
        forall|i: int|
            0 <= i < target_urls(resolutions).len() ==> is_target_url(
                resolutions,
                #[trigger] target_urls(resolutions)[i],
            ),
        forall|url: Seq<char>|
            is_target_url(resolutions, url) ==> #[trigger] target_urls(resolutions).contains(url),
    decreases resolutions.len(),
{
    if resolutions.len() > 0 {
        let front = resolutions.drop_last();
        let last = resolutions.last();
        lemma_target_urls(front);
        let out = target_urls(resolutions);
        assert forall|i: int| 0 <= i < out.len() implies is_target_url(
            resolutions,
            #[trigger] out[i],
        ) by {
            if i < target_urls(front).len() {
                assert(out[i] == target_urls(front)[i]);
                assert(is_target_url(front, target_urls(front)[i]));
                let j = choose|j: int|
                    0 <= j < front.len() && (#[trigger] front[j]).target is Some
                        && front[j].target->0.url == target_urls(front)[i];
                assert(resolutions[j] == front[j]);
            } else {
                let j = resolutions.len() - 1;
                assert(resolutions[j] == last);
                assert(last.target is Some);
                assert(out[i] == last.target->0.url);
            }
        }
        assert forall|url: Seq<char>| is_target_url(resolutions, url) implies #[trigger] out.contains(
            url,
        ) by {
            let j = choose|j: int|
                0 <= j < resolutions.len() && (#[trigger] resolutions[j]).target is Some
                    && resolutions[j].target->0.url == url;
            if j < front.len() {
                assert(front[j] == resolutions[j]);
                assert(is_target_url(front, url));
                assert(target_urls(front).contains(url));
                let i = choose|i: int|
                    0 <= i < target_urls(front).len() && target_urls(front)[i] == url;
                assert(out[i] == url);
            } else {
                assert(resolutions[j] == last);
                assert(out[out.len() - 1] == url);
            }
        }
    }
}

fn enqueue_targets(pending: &mut Vec<ModuleLocator>, resolutions: &Vec<Resolution>)
    ensures
        urls_of(final(pending)@) == urls_of(old(pending)@) + target_urls(
            resolutions_view(resolutions@),
        ),
        locators_view(final(pending)@) == locators_view(old(pending)@) + targets_of(
            resolutions_view(resolutions@),
        ),
{
    let ghost view = resolutions_view(resolutions@);
    let mut i: usize = 0;
    assert(view.take(0) =~= Seq::empty());
    assert(urls_of(pending@) =~= urls_of(old(pending)@) + target_urls(view.take(0)));
    assert(locators_view(pending@) =~= locators_view(old(pending)@) + targets_of(view.take(0)));
    while i < resolutions.len()
        invariant
            i <= resolutions.len(),
            view == resolutions_view(resolutions@),
            urls_of(pending@) == urls_of(old(pending)@) + target_urls(view.take(i as int)),
            locators_view(pending@) == locators_view(old(pending)@) + targets_of(
                view.take(i as int),
            ),
        decreases resolutions.len() - i,
    {
        proof {
            assert(view.take(i + 1).drop_last() =~= view.take(i as int));
            assert(view.take(i + 1).last() == resolutions@[i as int]@);
        }
        match &resolutions[i].target {
            Some(target) => {
                let copy = target.clone();
                proof {
                    assert(locators_view(pending@.push(copy)) =~= locators_view(pending@).push(
                        copy@,
                    ));
                    assert(locators_view(old(pending)@) + targets_of(view.take(i as int)).push(
                        copy@,
                    ) =~= (locators_view(old(pending)@) + targets_of(view.take(i as int))).push(
                        copy@,
                    ));
                    assert(urls_of(pending@.push(copy)) =~= urls_of(pending@).push(copy.url@));
                    assert(urls_of(old(pending)@) + target_urls(view.take(i as int)).push(
                        copy.url@,
                    ) =~= (urls_of(old(pending)@) + target_urls(view.take(i as int))).push(
                        copy.url@,
                    ));
                }
                pending.push(copy);
            },
            None => {},
        }
        i += 1;
    }
    assert(view.take(resolutions@.len() as int) =~= view);
}

/// The locators that recording a module adds to those still to look at:
/// the targets of its resolutions, where its transform succeeded and
/// dependencies are traversed.
pub open spec fn enqueued_locators_by(
    opts: OnBatchOpts,
    transform: OnTransformResult,
    issuer_dir: Option<Seq<char>>,
    resolved: Seq<ImportResolutionView>,
) -> Seq<LocatorView> {
    if transform.result is Ok && opts.traverse_dependencies {
        targets_of(resolutions_of(opts, issuer_dir, resolved))
    } else {
        Seq::empty()
    }
}

/// The URLs of the locators that recording a module adds to those still to
/// look at.
pub open spec fn enqueued_by(
    opts: OnBatchOpts,
    transform: OnTransformResult,
    issuer_dir: Option<Seq<char>>,
    resolved: Seq<ImportResolutionView>,
) -> Seq<Seq<char>> {
    if transform.result is Ok && opts.traverse_dependencies {
        target_urls(resolutions_of(opts, issuer_dir, resolved))
    } else {
        Seq::empty()
    }
}

/// Whether `after` is the state that handing out a module in `before`
/// leaves, and `out` what was handed out: the first pending locator whose
/// URL was not handed out before, with the options of its transform. The body of the
/// first module ever handed out is promisified where the options ask for it.
/// Nothing is handed out where every pending module was handed out before.
pub open spec fn is_handing_out(before: Traversal, after: Traversal, out: Option<BatchJob>) -> bool {
    &&& after.options() == before.options()
    &&& after.entry_urls() == before.entry_urls()
    &&& after.recorded() == before.recorded()
    &&& match out {
        Some(job) => {
            let k = first_fresh(before.pending_urls(), before.visited_urls());
            &&& 0 <= k < before.pending_urls().len()
            &&& job.locator.url@ == before.pending_urls()[k]
            &&& job.locator@ == before.pending_locators()[k]
            &&& after.pending_urls() == before.pending_urls().skip(k + 1)
            &&& after.pending_locators() == before.pending_locators().skip(k + 1)
            &&& after.visited_urls() == before.visited_urls().push(job.locator.url@)
            &&& job.opts.swc.use_esfuse_runtime == before.options().use_esfuse_runtime
            &&& job.opts.swc.promisify_body == (before.visited_urls().len() == 0
                && before.options().promisify_entry_point)
            &&& job.opts.static_resolutions@.len() == 0
        },
        None => {
            &&& first_fresh(before.pending_urls(), before.visited_urls())
                == before.pending_urls().len()
            &&& after.pending_urls().len() == 0
            &&& after.pending_locators().len() == 0
            &&& after.visited_urls() == before.visited_urls()
        },
    }
}

/// Whether `after` is the state that recording a module in `before` leaves.
/// Where the module is accepted, its result is added, and the targets of its
/// resolutions join the modules still to look at. Where it is refused,
/// nothing changes.
pub open spec fn is_recording(
    before: Traversal,
    after: Traversal,
    accepted: bool,
    roots: Map<Seq<char>, Seq<char>>,
    locator: ModuleLocator,
    transform: OnTransformResult,
    issuer_dir: Option<Seq<char>>,
    resolved: Seq<ImportResolutionView>,
) -> bool {
    &&& after.options() == before.options()
    &&& after.entry_urls() == before.entry_urls()
    &&& after.visited_urls() == before.visited_urls()
    &&& !accepted ==> after.recorded() == before.recorded() && after.pending_urls()
        == before.pending_urls() && after.pending_locators() == before.pending_locators()
    &&& accepted ==> {
        &&& after.recorded().len() == before.recorded().len() + 1
        &&& after.recorded().drop_last() == before.recorded()
        &&& is_record_of(
            after.recorded().last(),
            roots,
            before.options(),
            locator,
            transform,
            issuer_dir,
            resolved,
        )
        &&& after.pending_urls() == before.pending_urls() + enqueued_by(
            before.options(),
            transform,
            issuer_dir,
            resolved,
        )
        &&& after.pending_locators() == before.pending_locators() + enqueued_locators_by(
            before.options(),
            transform,
            issuer_dir,
            resolved,
        )
    }
}

impl Traversal {
    /// Records the result of a module that was handed out: its transform, and
    /// what resolving each of its imports gave. The targets of its
    /// resolutions join the modules still to look at. A module that was not
    /// handed out, or whose result is recorded already, is refused: nothing
    /// changes.
    pub fn record(
        &mut self,
        project: &Project,
        locator: &ModuleLocator,
        transform: OnTransformResult,
        issuer_dir: &Option<String>,
        resolved: &Vec<ImportResolution>,
    ) -> (accepted: bool)
        requires
            old(self).wf(),
        ensures
            final(self).wf(),
            accepted == old(self).in_flight(locator.url@),
            is_recording(
                *old(self),
                *final(self),
                accepted,
                project.roots(),
                *locator,
                transform,
                text_view(*issuer_dir),
                imports_view(resolved@),
            ),
    {
        if !self.was_visited(locator.url.as_str()) || self.has_result(locator.url.as_str()) {
            return false;
        }
        let ghost view = imports_view(resolved@);
        let ghost issuer = text_view(*issuer_dir);
        let result = match transform.result {
            Err(err) => {
                assert(self.pending_urls() =~= old(self).pending_urls() + Seq::empty());
                OnBatchModuleResult {
                    locator: locator.clone(),
                    result: Err(err),
                    dependencies: Vec::new(),
                }
            },
            Ok(data) => {
                let (resolutions, resolution_errors) = resolve_all(
                    issuer_dir,
                    resolved,
                    &self.opts,
                );
                if self.opts.traverse_dependencies {
                    enqueue_targets(&mut self.pending, &resolutions);
                } else {
                    assert(self.pending_urls() =~= old(self).pending_urls() + Seq::empty());
                }
                if resolution_errors.len() > 0 {
                    OnBatchModuleResult {
                        locator: locator.clone(),
                        result: Err(CompilationError { diagnostics: resolution_errors }),
                        dependencies: Vec::new(),
                    }
                } else {
                    let path = crate::utils::get_locator_virtual_path(
                        project,
                        locator,
                        crate::utils::GetLocatorVirtualPathOpts {
                            mime_type: data.mime_type.as_str(),
                            generated_module_folder: &self.opts.generated_module_folder,
                        },
                    );
                    let mut module = OnBatchModule::new(locator.clone(), data, resolutions);
                    module.imaginary_path = path;
                    OnBatchModuleResult {
                        locator: locator.clone(),
                        result: Ok(module),
                        dependencies: Vec::new(),
                    }
                }
            },
        };
        proof {
            let results = self.results@.push(result);
            assert(result_urls_of(results) =~= old(self).result_urls().push(locator.url@));
            assert(results.drop_last() =~= old(self).recorded());
            if !self.options().traverse_vendors {
                lemma_resolutions_avoid_vendors(self.options(), issuer, view);
                lemma_target_urls(resolutions_of(self.options(), issuer, view));
                let added = enqueued_by(self.options(), transform, issuer, view);
                let before = old(self).pending_urls();
                assert forall|i: int| 0 <= i < self.pending_urls().len() implies is_vendor_free(
                    self.entry_urls(),
                    #[trigger] self.pending_urls()[i],
                ) by {
                    if i < before.len() {
                        assert(self.pending_urls()[i] == before[i]);
                    } else {
                        let u = added[i - before.len()];
                        assert(self.pending_urls()[i] == u);
                        let rs = resolutions_of(self.options(), issuer, view);
                        assert(is_target_url(rs, u));
                        let j = choose|j: int|
                            0 <= j < rs.len() && (#[trigger] rs[j]).target is Some
                                && rs[j].target->0.url == u;
                        assert(!contains_text(u, "/node_modules/"@));
                    }
                }
            }
            assert forall|i: int| 0 <= i < result_urls_of(results).len() implies self.visited_urls().contains(
                #[trigger] result_urls_of(results)[i],
            ) by {
                if i < old(self).result_urls().len() {
                    assert(result_urls_of(results)[i] == old(self).result_urls()[i]);
                }
            }
        }
        self.results.push(result);
        true
    }

    /// Ends the traversal and gives its results, each URL once. Unless
    /// vendors are traversed, no result but that of an entry lies below
    /// `node_modules`.
    pub fn finish(self) -> (out: OnBatchResult)
        requires
            self.wf(),
        ensures
            out.results@ == self.recorded(),
            result_urls_of(out.results@).no_duplicates(),
            !self.options().traverse_vendors ==> forall|i: int|
                0 <= i < out.results@.len() ==> is_vendor_free(
                    self.entry_urls(),
                    #[trigger] result_urls_of(out.results@)[i],
                ),
    {
        proof {
            if !self.options().traverse_vendors {
                assert forall|i: int| 0 <= i < self.results@.len() implies is_vendor_free(
                    self.entry_urls(),
                    #[trigger] result_urls_of(self.results@)[i],
                ) by {
                    let u = self.result_urls()[i];
                    assert(self.visited_urls().contains(u));
                    let j = choose|j: int|
                        0 <= j < self.visited_urls().len() && self.visited_urls()[j] == u;
                    assert(is_vendor_free(self.entry_urls(), self.visited_urls()[j]));
                }
            }
        }
        OnBatchResult { results: self.results }
    }
}

/// The position of the first result that is filed under a URL, or the
/// number of results where there is none.
pub open spec fn result_index(results: Seq<OnBatchModuleResult>, url: Seq<char>) -> int
    decreases results.len(),
{
    if results.len() == 0 {
        0
    } else if results[0].locator.url@ == url {
        0
    } else {
        1 + result_index(results.drop_first(), url)
    }
}

/// The path that the module of a URL has among the traversed modules, where
/// the module has a result, the result is a success, and it has a path.
pub open spec fn virtual_path_of(results: Seq<OnBatchModuleResult>, url: Seq<char>) -> Option<
    Seq<char>,
> {
    let at = result_index(results, url);
    if 0 <= at < results.len() && results[at].result is Ok {
        text_view(results[at].result->Ok_0.imaginary_path)
    } else {
        None
    }
}

/// What an import specifier is rewritten to: the way from the importing
/// module's path to the path of the target. There is none where the import
/// has no target, where the target has no path, or where one of the two paths
/// is not absolute.
pub open spec fn mapping_of(results: Seq<OnBatchModuleResult>, from: Seq<char>, r: ResolutionView)
    -> Option<crate::types::KeyValue> {
    match r.target {
        Some(target) => match virtual_path_of(results, target.url) {
            Some(to) => if is_absolute(to) && is_absolute(from) {
                Some(crate::types::KeyValue { name: r.specifier, value: relative(to, from) })
            } else {
                None
            },
            None => None,
        },
        None => None,
    }
}

/// What the import specifiers of a module at the path `from` are rewritten
/// to, in the order of the module's resolutions.
pub open spec fn mappings_of(
    results: Seq<OnBatchModuleResult>,
    from: Seq<char>,
    resolutions: Seq<ResolutionView>,
) -> Seq<crate::types::KeyValue>
    decreases resolutions.len(),
{
    if resolutions.len() == 0 {
        Seq::empty()
    } else {
        let front = mappings_of(results, from, resolutions.drop_last());
        match mapping_of(results, from, resolutions.last()) {
            Some(mapping) => front.push(mapping),
            None => front,
        }
    }
}

/// What the import specifiers of one result's module are rewritten to. A
/// failed module, and one without a path, has nothing to rewrite.
pub open spec fn module_mappings(results: Seq<OnBatchModuleResult>, r: OnBatchModuleResult) -> Seq<
    crate::types::KeyValue,
> {
    match r.result {
        Ok(module) => match module.imaginary_path {
            Some(from) => mappings_of(results, from@, resolutions_view(module.resolutions@)),
            None => Seq::empty(),
        },
        Err(_) => Seq::empty(),
    }
}

/// For one module, what each of its import specifiers is rewritten to.
#[derive(Clone, Debug, PartialEq, Eq)]
pub struct ModuleMappings {
    /// The URL of the module.
    pub url: String,
    /// For each specifier, by `name`, the path that replaces it.
    pub mappings: Vec<StringKeyValue>,
}

fn find_virtual_path<'a>(results: &'a Vec<OnBatchModuleResult>, url: &str) -> (out: Option<
    &'a String,
>)
    ensures
        out is Some == virtual_path_of(results@, url@) is Some,
        out is Some ==> out->0@ == virtual_path_of(results@, url@)->0,
{
    let mut i: usize = 0;
    assert(results@.skip(0) =~= results@);
    while i < results.len()
        invariant
            i <= results.len(),
            result_index(results@, url@) == i + result_index(results@.skip(i as int), url@),
        decreases results.len() - i,
    {
        assert(results@.skip(i as int)[0] == results@[i as int]);
        if same(results[i].locator.url.as_str(), url) {
            return match &results[i].result {
                Ok(module) => match &module.imaginary_path {
                    Some(path) => Some(path),
                    None => None,
                },
                Err(_) => None,
            };
        }
        assert(results@.skip(i as int).drop_first() =~= results@.skip(i + 1));
        i += 1;
    }
    None
}

fn is_absolute_path(path: &str) -> (out: bool)
    ensures
        out == is_absolute(path@),
{
    let chars = chars_of(path);
    chars.len() > 0 && chars[0] == '/'
}

/// For each traversed module, in the order of the results, what each of
/// its import specifiers is rewritten to.
pub fn compute_resolution_mappings(modules: &Vec<OnBatchModuleResult>) -> (out: Vec<
    ModuleMappings,
>)
    ensures
        out@.len() == modules@.len(),
        forall|i: int|
            0 <= i < out@.len() ==> (#[trigger] out@[i]).url@ == modules@[i].locator.url@
                && crate::types::params_view(out@[i].mappings@) == module_mappings(
                modules@,
                modules@[i],
            ),
{
    let mut all: Vec<ModuleMappings> = Vec::new();
    let mut i: usize = 0;
    while i < modules.len()
        invariant
            i <= modules.len(),
            all@.len() == i,
            forall|j: int|
                0 <= j < i ==> (#[trigger] all@[j]).url@ == modules@[j].locator.url@
                    && crate::types::params_view(all@[j].mappings@) == module_mappings(
                    modules@,
                    modules@[j],
                ),
        decreases modules.len() - i,
    {
        let mut mappings: Vec<StringKeyValue> = Vec::new();
        assert(crate::types::params_view(mappings@) =~= Seq::empty());
        match &modules[i].result {
            Ok(module) => match &module.imaginary_path {
                Some(from) => {
                    let ghost view = resolutions_view(module.resolutions@);
                    let from_absolute = is_absolute_path(from.as_str());
                    let mut k: usize = 0;
                    assert(view.take(0) =~= Seq::empty());
                    while k < module.resolutions.len()
                        invariant
                            k <= module.resolutions.len(),
                            view == resolutions_view(module.resolutions@),
                            from_absolute == is_absolute(from@),
                            crate::types::params_view(mappings@) == mappings_of(
                                modules@,
                                from@,
                                view.take(k as int),
                            ),
                        decreases module.resolutions.len() - k,
                    {
                        let r = &module.resolutions[k];
                        proof {
                            assert(view.take(k + 1).drop_last() =~= view.take(k as int));
                            assert(view.take(k + 1).last() == r@);
                        }
                        match &r.target {
                            Some(target) => match find_virtual_path(
                                modules,
                                target.url.as_str(),
                            ) {
                                Some(to) => {
                                    if from_absolute && is_absolute_path(to.as_str()) {
                                        let pair = StringKeyValue {
                                            name: r.specifier.clone(),
                                            value: relative_to(to.as_str(), from.as_str()),
                                        };
                                        proof {
                                            assert(crate::types::params_view(mappings@.push(pair))
                                                =~= crate::types::params_view(mappings@).push(
                                                pair@,
                                            ));
                                        }
                                        mappings.push(pair);
                                    }
                                },
                                None => {},
                            },
                            None => {},
                        }
                        k += 1;
                    }
                    assert(view.take(module.resolutions@.len() as int) =~= view);
                },
                None => {},
            },
            Err(_) => {},
        }
        all.push(ModuleMappings { url: modules[i].locator.url.clone(), mappings });
        i += 1;
    }
    all
}

impl Clone for ImportResolution {
    fn clone(&self) -> (out: Self) {
        ImportResolution {
            specifier: self.specifier.clone(),
            optional: self.optional,
            result: match &self.result {
                Ok(locator) => Ok(locator.clone()),
                Err(err) => Err(err.clone()),
            },
            package_dir: self.package_dir.clone(),
        }
    }
}

/// Where natives, vendors and packages are all traversed, every import is
/// followed to its target but one that resolved to an external module.
pub proof fn lemma_nothing_filtered(
    opts: OnBatchOpts,
    issuer_dir: Option<Seq<char>>,
    target: LocatorView,
    target_dir: Option<Seq<char>>,
)
    requires
        opts.traverse_natives,
        opts.traverse_vendors,
        opts.traverse_packages,
    ensures
        is_followed(opts, issuer_dir, target, target_dir) == (target.kind
            != ModuleLocatorKind::External),
{
}

/// Whether no two resolutions of a list have the same specifier.
pub open spec fn has_distinct_specifiers(resolutions: Seq<ResolutionView>) -> bool {
    forall|i: int, j: int|
        0 <= i < j < resolutions.len() ==> (#[trigger] resolutions[i]).specifier != (
        #[trigger] resolutions[j]).specifier
}

/// The resolutions of a module hold each specifier once.
pub proof fn lemma_resolutions_are_distinct(
    opts: OnBatchOpts,
    issuer_dir: Option<Seq<char>>,
    resolved: Seq<ImportResolutionView>,
)
    ensures
        has_distinct_specifiers(resolutions_of(opts, issuer_dir, resolved)),
    decreases resolved.len(),
{
    if resolved.len() > 0 {
        let front = resolutions_of(opts, issuer_dir, resolved.drop_last());
        lemma_resolutions_are_distinct(opts, issuer_dir, resolved.drop_last());
        let last = resolved.last();
        match last.result {
            Ok(target) => {
                let r = resolution_of(opts, issuer_dir, last.specifier, target, last.package_dir);
                lemma_position_of(front, r.specifier);
                let at = position_of(front, r.specifier);
                let out = with_resolution(front, r);
                assert forall|i: int, j: int| 0 <= i < j < out.len() implies (
                #[trigger] out[i]).specifier != (#[trigger] out[j]).specifier by {
                    if at < front.len() {
                        assert(out[i].specifier == front[i].specifier);
                        assert(out[j].specifier == front[j].specifier);
                    } else if j < front.len() {
                        assert(out[i] == front[i] && out[j] == front[j]);
                    } else {
                        assert(out[i] == front[i]);
                    }
                }
            },
            Err(_) => {},
        }
    }
}

} // verus!
