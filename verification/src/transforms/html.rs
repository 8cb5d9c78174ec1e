//! What a page asks to have added to its head.

use vstd::prelude::*;

verus! {

/// An attribute of an element.
#[derive(Debug, Default, PartialEq, Eq)]
pub struct HtmlAttribute {
    pub name: String,
    pub value: String,
}

/// A reference to a style sheet or a script, with the attributes of its
/// element.
#[derive(Debug, Default, PartialEq, Eq)]
pub struct HtmlReference {
    pub src: String,
    pub attributes: Vec<HtmlAttribute>,
}

/// The style sheets and scripts to add to a page.
#[derive(Debug, Default, PartialEq, Eq)]
pub struct OnTransformHtmlArgs {
    pub stylesheets: Vec<HtmlReference>,
    pub scripts: Vec<HtmlReference>,
}

} // verus!
