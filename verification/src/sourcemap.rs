//! Source maps, as JSON texts, and the splicing of one into another.

use vstd::prelude::*;

verus! {

/// The JSON of a source map without mappings.
pub open spec fn empty_map_text() -> Seq<char> {
    "{\"version\":3,\"sourceRoot\":null,\"mappings\":\"\",\"sources\":[],\"sourcesContent\":[],\"names\":[]}"@
}

/// Trusted: `SourceMap::new` followed by `SourceMap::to_json` without a
/// source root writes a map of version 3 with empty mappings and no sources,
/// contents or names, whatever the project root; writing it does not fail.
#[verifier::external_body]
pub(crate) fn empty_map() -> (out: String)
    ensures
        out@ == empty_map_text(),
{
    parcel_sourcemap::SourceMap::new("").to_json(None).unwrap_or_default()
}

/// The JSON of the source map `base` with the source map `added` spliced in
/// at a line offset, as `parcel_sourcemap` computes it; nothing where one of
/// the two cannot be read or the splice fails.
pub uninterp spec fn spliced_map_json(base: Seq<char>, added: Seq<char>, line_offset: int) -> Option<
    Seq<char>,
>;

/// Trusted: reading both maps with `SourceMap::from_json` (the base with an
/// empty project root, the added map with the root `/`), splicing with
/// `SourceMap::add_sourcemap` and writing the result with `SourceMap::to_json`
/// depends on the two texts and the offset alone; `spliced_map_json` names
/// the outcome. Each of the four steps may fail, and then there is no
/// outcome.
#[verifier::external_body]
pub(crate) fn splice_map(base: &str, added: &str, line_offset: i64) -> (out: Option<String>)
    ensures
        out is Some == spliced_map_json(base@, added@, line_offset as int) is Some,
        out is Some ==> out->0@ == spliced_map_json(base@, added@, line_offset as int)->0,
{
    let mut map = parcel_sourcemap::SourceMap::from_json("", base).ok()?;
    let mut more = parcel_sourcemap::SourceMap::from_json("/", added).ok()?;
    map.add_sourcemap(&mut more, line_offset).ok()?;
    map.to_json(None).ok()
}

} // verus!
