//! The transforms that turn a fetched module into a script.

use crate::text::same;
use crate::types::{
    params_view, KeyValue, OnFetchResultData, OnTransformResult, OnTransformResultData,
    StringKeyValue,
};
use vstd::prelude::*;

pub mod css;
pub mod html;
pub mod mdx;
pub mod swc;

verus! {

/// The transform that a fetched module goes through.
#[derive(Clone, Copy, Debug, PartialEq, Eq, Structural)]
pub enum TransformRoute {
    /// The style sheet is minified and stays a style sheet.
    Css,
    /// The style sheet is minified and wrapped in a script that injects it.
    CssJs,
    /// The script pass.
    Script,
    /// The document is compiled to a script.
    Mdx,
    /// Only the metadata of the document is compiled.
    MdxMeta,
    /// The module stays as it was fetched.
    PassThrough,
}

/// Whether a list holds a parameter of a name and a value.
pub open spec fn has_param(params: Seq<KeyValue>, name: Seq<char>, value: Seq<char>) -> bool {
    exists|i: int|
        0 <= i < params.len() && (#[trigger] params[i]).name == name && params[i].value == value
}

/// Whether a list holds a parameter of a name, whatever its value.
pub open spec fn has_param_named(params: Seq<KeyValue>, name: Seq<char>) -> bool {
    exists|i: int| 0 <= i < params.len() && (#[trigger] params[i]).name == name
}

/// The transform of a media type: a style sheet stays one unless the
/// parameter `transform=js` asks for a script; a script goes through the
/// script pass; a document is compiled, only its metadata where a parameter
/// `meta` is set; anything else passes through.
pub open spec fn route_of(mime: Seq<char>, params: Seq<KeyValue>) -> TransformRoute {
    if mime == "text/css"@ {
        if has_param(params, "transform"@, "js"@) {
            TransformRoute::CssJs
        } else {
            TransformRoute::Css
        }
    } else if mime == "text/javascript"@ {
        TransformRoute::Script
    } else if mime == "text/markdown"@ {
        if has_param_named(params, "meta"@) {
            TransformRoute::MdxMeta
        } else {
            TransformRoute::Mdx
        }
    } else {
        TransformRoute::PassThrough
    }
}

fn holds_param(params: &Vec<StringKeyValue>, name: &str, value: Option<&str>) -> (out: bool)
    ensures
        out == match value {
            Some(v) => has_param(params_view(params@), name@, v@),
            None => has_param_named(params_view(params@), name@),
        },
{
    let mut i: usize = 0;
    while i < params.len()
        invariant
            i <= params.len(),
            forall|j: int|
                0 <= j < i ==> !((#[trigger] params_view(params@)[j]).name == name@ && match value {
                    Some(v) => params_view(params@)[j].value == v@,
                    None => true,
                }),
        decreases params.len() - i,
    {
        let matches_value = match value {
            Some(v) => same(params[i].value.as_str(), v),
            None => true,
        };
        if same(params[i].name.as_str(), name) && matches_value {
            assert(params_view(params@)[i as int] == params@[i as int]@);
            return true;
        }
        i += 1;
    }
    false
}

/// The transform that a fetched module goes through.
pub fn transform(fetch_data: &OnFetchResultData) -> (out: TransformRoute)
    ensures
        out == route_of(fetch_data.mime_type@, fetch_data.locator@.params),
{
    let mime = fetch_data.mime_type.as_str();
    let params = &fetch_data.locator.params;
    if same(mime, "text/css") {
        if holds_param(params, "transform", Some("js")) {
            TransformRoute::CssJs
        } else {
            TransformRoute::Css
        }
    } else if same(mime, "text/javascript") {
        TransformRoute::Script
    } else if same(mime, "text/markdown") {
        if holds_param(params, "meta", None) {
            TransformRoute::MdxMeta
        } else {
            TransformRoute::Mdx
        }
    } else {
        TransformRoute::PassThrough
    }
}

/// Whether a transform gave code of a media type, without source map,
/// imports or dependencies.
pub open spec fn is_plain_result(out: OnTransformResult, mime: Seq<char>, code: Seq<char>) -> bool {
    &&& out.dependencies@.len() == 0
    &&& out.result is Ok
    &&& out.result->Ok_0.mime_type@ == mime
    &&& out.result->Ok_0.code@ == code
    &&& out.result->Ok_0.map is None
    &&& out.result->Ok_0.imports@.len() == 0
}

/// The result of a module that passes through: its media type and its
/// content as they were fetched.
pub fn pass_through(fetch_data: OnFetchResultData) -> (out: OnTransformResult)
    ensures
        is_plain_result(out, fetch_data.mime_type@, fetch_data.source@),
{
    OnTransformResult {
        result: Ok(
            OnTransformResultData {
                mime_type: fetch_data.mime_type,
                code: fetch_data.source,
                map: None,
                imports: Vec::new(),
            },
        ),
        dependencies: Vec::new(),
    }
}

} // verus!
