//! Fetching: what the content of a module is, and where it comes from.

use crate::classes::project::Project;
use crate::encoding::{
    base64_encode, base64_no_pad, decode_lossy, json_quote, json_quoted, utf8_lossy,
};
use crate::text::{chars_of, push_text, same, string_of};
use crate::types::{
    canonical_url, params_view, physical_path_spec, KeyValue, ModuleLocator, ModuleLocatorKind,
    OnFetchArgs, OnFetchResult, OnFetchResultData, StringKeyValue,
};
use crate::utils::errors::CompilationError;
use crate::utils::{
    extension_of, get_extension, get_mime_from_ext, is_binary_mime, is_binary_mime_type,
    mime_of_ext,
};
use vstd::prelude::*;

verus! {

/// The value of the last parameter of a name, if there is one.
pub open spec fn last_value_of(params: Seq<KeyValue>, name: Seq<char>) -> Option<Seq<char>>
    decreases params.len(),
{
    if params.len() == 0 {
        None
    } else if params.last().name == name {
        Some(params.last().value)
    } else {
        last_value_of(params.drop_last(), name)
    }
}

/// The value of the last parameter of a name, if there is one.
pub fn find_last_param<'a>(params: &'a Vec<StringKeyValue>, name: &str) -> (out: Option<
    &'a String,
>)
    ensures
        out is Some == last_value_of(params_view(params@), name@) is Some,
        out is Some ==> out->0@ == last_value_of(params_view(params@), name@)->0,
{
    let ghost view = params_view(params@);
    let mut n: usize = params.len();
    assert(view.take(n as int) =~= view);
    while n > 0
        invariant
            n <= params.len(),
            view == params_view(params@),
            last_value_of(view, name@) == last_value_of(view.take(n as int), name@),
        decreases n,
    {
        assert(view.take(n as int).last() == params@[n - 1]@);
        if same(params[n - 1].name.as_str(), name) {
            return Some(&params[n - 1].value);
        }
        assert(view.take(n as int).drop_last() =~= view.take(n - 1));
        n -= 1;
    }
    None
}

/// Why an external module is not fetched.
pub open spec fn external_message(url: Seq<char>) -> Seq<char> {
    "Cannot fetch this module ("@ + url + " is external)"@
}

/// Why a module whose file could not be read is not fetched.
pub open spec fn unreadable_message(url: Seq<char>) -> Seq<char> {
    "Cannot fetch this module (an error happened while reading "@ + url + ")"@
}

/// Why a module without a file is not fetched.
pub open spec fn no_fetcher_message(url: Seq<char>) -> Seq<char> {
    "Cannot fetch this module (no fetcher configured for "@ + url + ")"@
}

/// Whether a fetch failed with one diagnostic of the given message.
pub open spec fn is_fetch_failure(out: OnFetchResult, message: Seq<char>) -> bool {
    &&& out.dependencies@.len() == 0
    &&& out.result is Err
    &&& out.result->Err_0.is_single(message, Seq::empty())
}

/// Whether a fetch gave the module of a locator, with the given media type
/// and content.
pub open spec fn is_fetched(
    out: OnFetchResult,
    locator: ModuleLocator,
    mime: Seq<char>,
    source: Seq<char>,
) -> bool {
    &&& out.dependencies@.len() == 0
    &&& out.result is Ok
    &&& out.result->Ok_0.locator@ == locator@
    &&& out.result->Ok_0.mime_type@ == mime
    &&& out.result->Ok_0.source@ == source
}

fn failure(head: &str, url: &str, tail: &str) -> (out: OnFetchResult)
    ensures
        is_fetch_failure(out, head@ + url@ + tail@),
{
    let mut message = chars_of(head);
    push_text(&mut message, url);
    push_text(&mut message, tail);
    OnFetchResult {
        result: Err(CompilationError::from_string(string_of(&message))),
        dependencies: Vec::new(),
    }
}

/// What is decided of a fetch before any hook is asked: an external module
/// is refused. For any other module the hooks are offered the URL of its
/// locator, and what is done without hooks comes last.
pub fn fetch(args: &OnFetchArgs) -> (out: Option<OnFetchResult>)
    ensures
        out is Some == (args.locator.kind == ModuleLocatorKind::External),
        out is Some ==> is_fetch_failure(out->0, external_message(args.locator.url@)),
{
    if args.locator.kind == ModuleLocatorKind::External {
        return Some(
            failure("Cannot fetch this module (", args.locator.url.as_str(), " is external)"),
        );
    }
    None
}

/// What a fetch without hooks does next.
#[derive(Clone, Debug, PartialEq, Eq)]
pub enum FetchPlan {
    /// Nothing is to be read: this is the result.
    Done(OnFetchResult),
    /// Read the file at this path, and hand its bytes to `fetched`.
    Read(String),
}

/// The module that stands for the URL of another: a script that exports,
/// as its default, the URL of the locator without its parameters.
pub open spec fn url_module_source(locator: ModuleLocator) -> Seq<char> {
    "export default "@ + json_quoted(
        canonical_url(locator.kind, locator.specifier@, Seq::empty()),
    ) + ";"@
}

/// Whether a plan is that of fetching a locator without hooks. A locator
/// whose last `transform` parameter is `url` gives the module that stands for
/// its URL, and nothing is read. Any other locator with a file has that file
/// read. A locator without a file fails.
pub open spec fn is_fetch_plan(
    out: FetchPlan,
    roots: Map<Seq<char>, Seq<char>>,
    locator: ModuleLocator,
) -> bool {
    if last_value_of(locator@.params, "transform"@) == Some("url"@) {
        out is Done && is_fetched(
            out->Done_0,
            locator,
            "text/javascript"@,
            url_module_source(locator),
        )
    } else {
        match physical_path_spec(roots, locator@) {
            Some(path) => out is Read && out->Read_0@ == path,
            None => out is Done && is_fetch_failure(
                out->Done_0,
                no_fetcher_message(locator.url@),
            ),
        }
    }
}

/// What a fetch without hooks does next.
pub fn fetch_no_hooks(project: &Project, args: &OnFetchArgs) -> (out: FetchPlan)
    ensures
        is_fetch_plan(out, project.roots(), args.locator),
{
    match find_last_param(&args.locator.params, "transform") {
        Some(value) => {
            if same(value.as_str(), "url") {
                let plain = args.locator.without_query();
                let mut source = chars_of("export default ");
                push_text(&mut source, json_quote(plain.url.as_str()).as_str());
                push_text(&mut source, ";");
                return FetchPlan::Done(
                    OnFetchResult {
                        result: Ok(
                            OnFetchResultData {
                                locator: args.locator.clone(),
                                mime_type: "text/javascript".to_owned(),
                                source: string_of(&source),
                            },
                        ),
                        dependencies: Vec::new(),
                    },
                );
            }
        },
        None => {},
    }
    match args.locator.physical_path(project) {
        Some(path) => FetchPlan::Read(path),
        None => FetchPlan::Done(
            failure(
                "Cannot fetch this module (no fetcher configured for ",
                args.locator.url.as_str(),
                ")",
            ),
        ),
    }
}

/// The media type of a module, by the extension of its specifier.
pub open spec fn mime_of(locator: ModuleLocator) -> Seq<char> {
    mime_of_ext(extension_of(locator.specifier@))
}

/// The content of a module as text: base64 without padding for a binary
/// media type, else the bytes read as UTF-8, ill-formed parts replaced.
pub open spec fn content_text(mime: Seq<char>, bytes: Seq<u8>) -> Seq<char> {
    if is_binary_mime(mime) {
        base64_no_pad(bytes)
    } else {
        utf8_lossy(bytes)
    }
}

/// The result of a fetch without hooks, from what reading the file gave:
/// its bytes, or nothing where it could not be read.
pub fn fetched(args: OnFetchArgs, bytes: Option<Vec<u8>>) -> (out: OnFetchResult)
    ensures
        match bytes {
            Some(b) => is_fetched(
                out,
                args.locator,
                mime_of(args.locator),
                content_text(mime_of(args.locator), b@),
            ),
            None => is_fetch_failure(out, unreadable_message(args.locator.url@)),
        },
{
    match bytes {
        Some(source_bytes) => {
            let ext = get_extension(args.locator.specifier.as_str());
            let mime_type = get_mime_from_ext(ext.as_str()).to_owned();
            let source = if is_binary_mime_type(mime_type.as_str()) {
                base64_encode(&source_bytes)
            } else {
                decode_lossy(&source_bytes)
            };
            OnFetchResult {
                result: Ok(OnFetchResultData { locator: args.locator, mime_type, source }),
                dependencies: Vec::new(),
            }
        },
        None => failure(
            "Cannot fetch this module (an error happened while reading ",
            args.locator.url.as_str(),
            ")",
        ),
    }
}

} // verus!
