//! Resolving: which module an import names.

use crate::classes::project::{locator_of_path, locator_spec, Project};
use crate::encoding::{debug_quote, debug_quoted};
use crate::text::{chars_of, push_text, same, string_of};
use crate::types::{
    clone_params, locator_of, params_view, physical_path_spec, KeyValue, LocatorView,
    ModuleLocator, ModuleLocatorKind, OnResolveArgs, OnResolveResult, OnResolveResultData,
    StringKeyValue,
};
use crate::utils::errors::{CompilationError, Highlight};
use crate::utils::{parse_query, parse_query_spec, split_query, split_query_spec};
use vstd::prelude::*;

verus! {

/// Whether a resolution gave the module of a locator.
pub open spec fn is_resolved(out: OnResolveResult, locator: LocatorView) -> bool {
    &&& out.dependencies@.len() == 0
    &&& out.result is Ok
    &&& out.result->Ok_0.locator@ == locator
}

/// What marks a failed resolution: the URL of the issuer and the place of
/// the import, as far as they are known.
pub open spec fn issuer_highlight(args: OnResolveArgs) -> Highlight {
    Highlight {
        source: match args.issuer {
            Some(issuer) => Some(issuer.url),
            None => None,
        },
        subject: None,
        label: None,
        span: args.span,
    }
}

/// Whether a resolution failed with one diagnostic of the given message,
/// which points at the issuer and at the place of the import as far as they
/// are known.
pub open spec fn is_resolve_failure(out: OnResolveResult, args: OnResolveArgs, message: Seq<char>)
    -> bool {
    &&& out.dependencies@.len() == 0
    &&& out.result is Err
    &&& out.result->Err_0.is_single(
        message,
        if issuer_highlight(args).is_blank() {
            Seq::empty()
        } else {
            seq![issuer_highlight(args)]
        },
    )
}

fn done(locator: ModuleLocator) -> (out: OnResolveResult)
    ensures
        is_resolved(out, locator@),
{
    OnResolveResult { result: Ok(OnResolveResultData { locator }), dependencies: Vec::new() }
}

fn failure(args: &OnResolveArgs, message: String) -> (out: OnResolveResult)
    ensures
        is_resolve_failure(out, *args, message@),
{
    let source = match &args.issuer {
        Some(issuer) => Some(issuer.url.clone()),
        None => None,
    };
    let highlight = Highlight::at(source, args.span.clone());
    OnResolveResult {
        result: Err(CompilationError::from_string_with_highlight(message, highlight)),
        dependencies: Vec::new(),
    }
}

/// The locator that a request names by itself, before anything is looked
/// up: the locator that the request is, as a URL or as an absolute path; or
/// the binding that the runtime injects, an external module, where the
/// request is `esfuse/context`.
pub open spec fn named_locator(entries: Map<Seq<char>, Seq<char>>, request: Seq<char>) -> Option<
    LocatorView,
> {
    match locator_spec(entries, request) {
        Some(l) => Some(l),
        None => if request == "esfuse/context"@ {
            Some(locator_of(ModuleLocatorKind::External, request, Seq::empty()))
        } else {
            None
        },
    }
}

fn named(project: &Project, request: &str) -> (out: Option<ModuleLocator>)
    requires
        project.wf(),
    ensures
        out is Some == named_locator(project.entries(), request@) is Some,
        out is Some ==> out->0@ == named_locator(project.entries(), request@)->0,
{
    match project.locator(request) {
        Some(locator) => Some(locator),
        None => {
            if same(request, "esfuse/context") {
                let none: Vec<StringKeyValue> = Vec::new();
                assert(params_view(none@) =~= Seq::empty());
                proof {
                    crate::utils::lemma_sorted_params(Seq::empty());
                    assert(crate::utils::sorted_params(Seq::<KeyValue>::empty()) =~= Seq::empty());
                }
                Some(ModuleLocator::new(ModuleLocatorKind::External, request.to_owned(), none))
            } else {
                None
            }
        },
    }
}

/// What is decided of a resolution before any hook is asked: a request that
/// names a locator by itself resolves to it. For any other request the hooks
/// are offered the request, and what is done without hooks comes last.
pub fn resolve(project: &Project, args: &OnResolveArgs) -> (out: Option<OnResolveResult>)
    requires
        project.wf(),
    ensures
        out is Some == named_locator(project.entries(), args.request@) is Some,
        out is Some ==> is_resolved(
            out->0,
            named_locator(project.entries(), args.request@)->0,
        ),
{
    match named(project, args.request.as_str()) {
        Some(locator) => Some(done(locator)),
        None => None,
    }
}

/// Whether a list holds a parameter of a name.
pub open spec fn has_name(params: Seq<KeyValue>, name: Seq<char>) -> bool {
    exists|i: int| 0 <= i < params.len() && (#[trigger] params[i]).name == name
}

/// The parameters of a list whose names a second list does not hold.
pub open spec fn without_names(params: Seq<KeyValue>, names: Seq<KeyValue>) -> Seq<KeyValue>
    decreases params.len(),
{
    if params.len() == 0 {
        Seq::empty()
    } else if has_name(names, params.last().name) {
        without_names(params.drop_last(), names)
    } else {
        without_names(params.drop_last(), names).push(params.last())
    }
}

/// The parameters of a resolved locator: the forced ones, and those of the
/// request whose names are not forced.
pub open spec fn merged_params(forced: Seq<KeyValue>, asked: Seq<KeyValue>) -> Seq<KeyValue> {
    forced + without_names(asked, forced)
}

fn holds_name(params: &Vec<StringKeyValue>, name: &str) -> (out: bool)
    ensures
        out == has_name(params_view(params@), name@),
{
    let mut i: usize = 0;
    while i < params.len()
        invariant
            i <= params.len(),
            forall|j: int| 0 <= j < i ==> (#[trigger] params_view(params@)[j]).name != name@,
        decreases params.len() - i,
    {
        if same(params[i].name.as_str(), name) {
            assert(params_view(params@)[i as int].name == name@);
            return true;
        }
        i += 1;
    }
    false
}

/// The forced parameters, and those of the request whose names are not
/// forced.
pub fn merge_params(forced: &Vec<StringKeyValue>, asked: &Vec<StringKeyValue>) -> (out: Vec<
    StringKeyValue,
>)
    ensures
        params_view(out@) == merged_params(params_view(forced@), params_view(asked@)),
{
    let mut out = clone_params(forced);
    let ghost view = params_view(asked@);
    let mut i: usize = 0;
    assert(params_view(out@) =~= params_view(forced@) + without_names(
        view.take(0),
        params_view(forced@),
    ));
    while i < asked.len()
        invariant
            i <= asked.len(),
            view == params_view(asked@),
            params_view(out@) == params_view(forced@) + without_names(
                view.take(i as int),
                params_view(forced@),
            ),
        decreases asked.len() - i,
    {
        proof {
            assert(view.take(i + 1).drop_last() =~= view.take(i as int));
            assert(view.take(i + 1).last() == asked@[i as int]@);
        }
        if !holds_name(forced, asked[i].name.as_str()) {
            let p = asked[i].clone();
            proof {
                assert(params_view(out@.push(p)) =~= params_view(out@).push(p@));
                assert(params_view(out@).push(p@) =~= params_view(forced@) + without_names(
                    view.take(i as int),
                    params_view(forced@),
                ).push(p@));
            }
            out.push(p);
        }
        i += 1;
    }
    assert(view.take(asked@.len() as int) =~= view);
    out
}

/// What a resolution without hooks does next.
#[derive(Clone, Debug, PartialEq, Eq)]
pub enum ResolvePlan {
    /// Nothing is to be looked up: this is the result.
    Done(OnResolveResult),
    /// Ask the resolver for `specifier`, as seen from `base`, and hand its
    /// answer and `params` to `resolved`.
    Ask { specifier: String, base: String, params: Vec<StringKeyValue> },
}

/// Where a resolution starts from: the file of the issuer where the issuer
/// has one, else the root of the project.
pub open spec fn resolution_base(
    roots: Map<Seq<char>, Seq<char>>,
    root: Seq<char>,
    issuer: Option<ModuleLocator>,
) -> Seq<char> {
    match issuer {
        Some(issuer) => match physical_path_spec(roots, issuer@) {
            Some(path) => path,
            None => root,
        },
        None => root,
    }
}

/// The parameters that a request asks for: those of its query, sorted.
pub open spec fn asked_params(request: Seq<char>) -> Seq<KeyValue> {
    match split_query_spec(request).1 {
        Some(query) => parse_query_spec(query),
        None => Seq::empty(),
    }
}

/// Whether a plan is that of resolving a request without hooks. A request
/// that names a locator by itself resolves to it. Any other request is cut at
/// its first `?`: the resolver is asked for what stands before it, as seen
/// from the issuer's file or the root of the project, and the resolved locator
/// gets the forced parameters and those of the query.
pub open spec fn is_resolve_plan(out: ResolvePlan, project: Project, args: OnResolveArgs) -> bool {
    match named_locator(project.entries(), args.request@) {
        Some(l) => out is Done && is_resolved(out->Done_0, l),
        None => {
            &&& out is Ask
            &&& out->specifier@ == split_query_spec(args.request@).0
            &&& out->base@ == resolution_base(project.roots(), project.root_text(), args.issuer)
            &&& params_view(out->params@) == merged_params(
                params_view(args.opts.force_params@),
                asked_params(args.request@),
            )
        },
    }
}

/// What a resolution without hooks does next.
pub fn resolve_no_hooks(project: &Project, args: &OnResolveArgs) -> (out: ResolvePlan)
    requires
        project.wf(),
    ensures
        is_resolve_plan(out, *project, *args),
{
    match named(project, args.request.as_str()) {
        Some(locator) => {
            return ResolvePlan::Done(done(locator));
        },
        None => {},
    }
    let base = match &args.issuer {
        Some(issuer) => match issuer.physical_path(project) {
            Some(path) => path,
            None => project.root_path(),
        },
        None => project.root_path(),
    };
    let (specifier, query) = split_query(args.request.as_str());
    let asked = match query {
        Some(query) => parse_query(query.as_str()),
        None => {
            let none: Vec<StringKeyValue> = Vec::new();
            assert(params_view(none@) =~= Seq::empty());
            none
        },
    };
    ResolvePlan::Ask { specifier, base, params: merge_params(&args.opts.force_params, &asked) }
}

/// Why the resolver found nothing.
#[derive(Clone, Debug, PartialEq, Eq)]
pub enum ResolverFailure {
    UnknownScheme,
    UnknownError,
    FileNotFound { relative: String, from: String },
    ModuleNotFound { module: String },
    ModuleEntryNotFound,
    ModuleSubpathNotFound,
    JsonError,
    IOError,
    /// A package manifest that cannot be read: its path, and the error as
    /// the manifest's reader prints it.
    PackageJsonError { path: String, error: String },
    PackageJsonNotFound { from: String },
    InvalidSpecifier,
    TsConfigExtendsNotFound,
    /// A failure of Plug'n'Play resolution, as it describes itself.
    PnpResolutionError(String),
}

/// What the resolver answered.
#[derive(Clone, Debug, PartialEq, Eq)]
pub enum ResolverOutcome {
    /// A file, by its path.
    Path(String),
    /// A module that the platform provides, by its name.
    Builtin(String),
    /// Another answer, as it prints itself.
    Other(String),
    Failed(ResolverFailure),
}

/// What the diagnostic of a failure says.
pub open spec fn failure_message(failure: ResolverFailure) -> Seq<char> {
    match failure {
        ResolverFailure::UnknownScheme => "Unknown scheme"@,
        ResolverFailure::UnknownError => "Unknown error"@,
        ResolverFailure::FileNotFound { relative, from } => "File not found ("@ + debug_quoted(
            relative@,
        ) + ", from "@ + debug_quoted(from@) + ")"@,
        ResolverFailure::ModuleNotFound { module } => "Module not found ("@ + debug_quoted(
            module@,
        ) + ")"@,
        ResolverFailure::ModuleEntryNotFound => "Module entry not found"@,
        ResolverFailure::ModuleSubpathNotFound => "Module subpath not found"@,
        ResolverFailure::JsonError => "Json error"@,
        ResolverFailure::IOError => "IO error"@,
        ResolverFailure::PackageJsonError { path, error } => "Invalid package manifest file ("@
            + error@ + " in "@ + debug_quoted(path@) + ")"@,
        ResolverFailure::PackageJsonNotFound { from } => "Package manifest not found ("@
            + debug_quoted(from@) + ")"@,
        ResolverFailure::InvalidSpecifier => "Invalid specifier"@,
        ResolverFailure::TsConfigExtendsNotFound =>
            "Extended TypeScript configuration file not found"@,
        ResolverFailure::PnpResolutionError(text) => text@,
    }
}

/// Writes what the diagnostic of a failure says.
pub fn describe_failure(failure: &ResolverFailure) -> (out: String)
    ensures
        out@ == failure_message(*failure),
{
    match failure {
        ResolverFailure::UnknownScheme => "Unknown scheme".to_owned(),
        ResolverFailure::UnknownError => "Unknown error".to_owned(),
        ResolverFailure::FileNotFound { relative, from } => {
            let mut buf = chars_of("File not found (");
            push_text(&mut buf, debug_quote(relative.as_str()).as_str());
            push_text(&mut buf, ", from ");
            push_text(&mut buf, debug_quote(from.as_str()).as_str());
            push_text(&mut buf, ")");
            string_of(&buf)
        },
        ResolverFailure::ModuleNotFound { module } => {
            let mut buf = chars_of("Module not found (");
            push_text(&mut buf, debug_quote(module.as_str()).as_str());
            push_text(&mut buf, ")");
            string_of(&buf)
        },
        ResolverFailure::ModuleEntryNotFound => "Module entry not found".to_owned(),
        ResolverFailure::ModuleSubpathNotFound => "Module subpath not found".to_owned(),
        ResolverFailure::JsonError => "Json error".to_owned(),
        ResolverFailure::IOError => "IO error".to_owned(),
        ResolverFailure::PackageJsonError { path, error } => {
            let mut buf = chars_of("Invalid package manifest file (");
            push_text(&mut buf, error.as_str());
            push_text(&mut buf, " in ");
            push_text(&mut buf, debug_quote(path.as_str()).as_str());
            push_text(&mut buf, ")");
            string_of(&buf)
        },
        ResolverFailure::PackageJsonNotFound { from } => {
            let mut buf = chars_of("Package manifest not found (");
            push_text(&mut buf, debug_quote(from.as_str()).as_str());
            push_text(&mut buf, ")");
            string_of(&buf)
        },
        ResolverFailure::InvalidSpecifier => "Invalid specifier".to_owned(),
        ResolverFailure::TsConfigExtendsNotFound => {
            "Extended TypeScript configuration file not found".to_owned()
        },
        ResolverFailure::PnpResolutionError(text) => text.clone(),
    }
}

/// What the diagnostic of an answer that cannot be used says.
pub open spec fn unsupported_message(answer: Seq<char>) -> Seq<char> {
    "Unsupported resolution: "@ + answer
}

/// Whether a result is that of a resolution, given what the resolver
/// answered. A file gives its file locator with the given parameters; a file
/// that lies in no namespace cannot be used. A module of the platform gives
/// an external locator of its name. A failure gives its diagnostic.
pub open spec fn is_resolution_of(
    out: OnResolveResult,
    entries: Map<Seq<char>, Seq<char>>,
    args: OnResolveArgs,
    params: Seq<KeyValue>,
    outcome: ResolverOutcome,
) -> bool {
    match outcome {
        ResolverOutcome::Path(path) => match locator_of_path(entries, path@, params) {
            Some(l) => is_resolved(out, l),
            None => is_resolve_failure(out, args, unsupported_message(debug_quoted(path@))),
        },
        ResolverOutcome::Builtin(name) => is_resolved(
            out,
            locator_of(ModuleLocatorKind::External, name@, Seq::empty()),
        ),
        ResolverOutcome::Other(answer) => is_resolve_failure(
            out,
            args,
            unsupported_message(answer@),
        ),
        ResolverOutcome::Failed(failure) => is_resolve_failure(
            out,
            args,
            failure_message(failure),
        ),
    }
}

fn unsupported(args: &OnResolveArgs, answer: &str) -> (out: OnResolveResult)
    ensures
        is_resolve_failure(out, *args, unsupported_message(answer@)),
{
    let mut message = chars_of("Unsupported resolution: ");
    push_text(&mut message, answer);
    failure(args, string_of(&message))
}

/// The result of a resolution without hooks, from what the resolver
/// answered.
pub fn resolved(
    project: &Project,
    args: &OnResolveArgs,
    params: &Vec<StringKeyValue>,
    outcome: &ResolverOutcome,
) -> (out: OnResolveResult)
    requires
        project.wf(),
    ensures
        is_resolution_of(out, project.entries(), *args, params_view(params@), *outcome),
{
    match outcome {
        ResolverOutcome::Path(path) => match project.locator_from_path(path.as_str(), params) {
            Some(locator) => done(locator),
            None => unsupported(args, debug_quote(path.as_str()).as_str()),
        },
        ResolverOutcome::Builtin(name) => {
            let none: Vec<StringKeyValue> = Vec::new();
            assert(params_view(none@) =~= Seq::empty());
            proof {
                assert(crate::utils::sorted_params(Seq::<KeyValue>::empty()) =~= Seq::empty());
            }
            done(ModuleLocator::new(ModuleLocatorKind::External, name.clone(), none))
        },
        ResolverOutcome::Other(answer) => unsupported(args, answer.as_str()),
        ResolverOutcome::Failed(f) => failure(args, describe_failure(f)),
    }
}

} // verus!
