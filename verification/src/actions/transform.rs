//! Transforming: from what a fetch gave to the transform of the module.

use crate::transforms::{route_of, TransformRoute};
use crate::types::{OnFetchResult, OnFetchResultData, OnTransformResult};
use vstd::prelude::*;

verus! {

/// What follows a fetch: the fetched module goes through the transform of
/// its media type; a failed fetch is the failed transform, with the same
/// error and the same dependencies.
pub fn transform(fetch_res: OnFetchResult) -> (out: Result<
    (OnFetchResultData, TransformRoute),
    OnTransformResult,
>)
    ensures
        match fetch_res.result {
            Ok(data) => out is Ok && out->Ok_0.0 == data && out->Ok_0.1 == route_of(
                data.mime_type@,
                data.locator@.params,
            ),
            Err(err) => out is Err && out->Err_0.result is Err && out->Err_0.result->Err_0 == err
                && out->Err_0.dependencies == fetch_res.dependencies,
        },
{
    match fetch_res.result {
        Ok(fetch_data) => {
            let route = crate::transforms::transform(&fetch_data);
            Ok((fetch_data, route))
        },
        Err(err) => Err(
            OnTransformResult { result: Err(err), dependencies: fetch_res.dependencies },
        ),
    }
}

} // verus!
