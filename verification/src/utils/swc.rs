//! What the pass that rewrites import specifiers decides.

use crate::text::same;
use crate::types::{params_view, KeyValue, StringKeyValue};
use vstd::prelude::*;

verus! {

/// The value of the first parameter of a name, if there is one.
pub open spec fn first_value_of(params: Seq<KeyValue>, name: Seq<char>) -> Option<Seq<char>>
    decreases params.len(),
{
    if params.len() == 0 {
        None
    } else if params[0].name == name {
        Some(params[0].value)
    } else {
        first_value_of(params.drop_first(), name)
    }
}

/// The rewriting of import specifiers: for each specifier, by `name`, the
/// text that replaces it.
#[derive(Debug, PartialEq, Eq)]
pub struct DependencyUpdater<'a> {
    pub mappings: &'a Vec<StringKeyValue>,
}

impl<'a> DependencyUpdater<'a> {
    /// The rewriting that these mappings describe.
    pub fn new(mappings: &'a Vec<StringKeyValue>) -> (out: Self)
        ensures
            out.mappings == mappings,
    {
        Self { mappings }
    }

    /// What the argument of a call of `require` is replaced by: the text
    /// that the mappings hold for its specifier. An argument whose specifier
    /// the mappings do not hold stays as it is.
    pub fn replacement(&self, specifier: &str) -> (out: Option<String>)
        ensures
            out is Some == first_value_of(params_view(self.mappings@), specifier@) is Some,
            out is Some ==> out->0@ == first_value_of(params_view(self.mappings@), specifier@)->0,
    {
        let ghost view = params_view(self.mappings@);
        let mut i: usize = 0;
        assert(view.skip(0) =~= view);
        while i < self.mappings.len()
            invariant
                i <= self.mappings.len(),
                view == params_view(self.mappings@),
                first_value_of(view, specifier@) == first_value_of(
                    view.skip(i as int),
                    specifier@,
                ),
            decreases self.mappings.len() - i,
        {
            assert(view.skip(i as int)[0] == self.mappings@[i as int]@);
            if same(self.mappings[i].name.as_str(), specifier) {
                return Some(self.mappings[i].value.clone());
            }
            assert(view.skip(i as int).drop_first() =~= view.skip(i + 1));
            i += 1;
        }
        None
    }
}

} // verus!
