//! Style sheets: what is made of a minified style sheet.

use crate::encoding::{json_quote, json_quoted};
use crate::text::{chars_of, ends_with, finishes_with, push_text, string_of};
use crate::transforms::is_plain_result;
use crate::types::{ModuleLocator, OnTransformResult, OnTransformResultData};
use crate::utils::errors::CompilationError;
use crate::utils::order::{
    ascending_order, is_arrangement, keys_view, positions_view, sort_indices,
};
use vstd::prelude::*;

verus! {

/// A name that a style sheet exports: the name as it is written, and the
/// name that was generated for it.
#[derive(Clone, Debug, PartialEq, Eq)]
pub struct CssExport {
    pub name: String,
    pub generated: String,
}

/// What a `CssExport` stands for.
pub struct CssExportView {
    pub name: Seq<char>,
    pub generated: Seq<char>,
}

impl View for CssExport {
    type V = CssExportView;

    open spec fn view(&self) -> CssExportView {
        CssExportView { name: self.name@, generated: self.generated@ }
    }
}

/// The exports of a list, each taken by its view.
pub open spec fn exports_view(exports: Seq<CssExport>) -> Seq<CssExportView> {
    exports.map_values(|e: CssExport| e@)
}

/// Whether the names of a style sheet are local to it: its specifier ends
/// with `.module.css`.
pub open spec fn is_css_module(locator: ModuleLocator) -> bool {
    ends_with(locator.specifier@, ".module.css"@)
}

/// Whether the names of a style sheet are local to it.
pub fn uses_css_modules(locator: &ModuleLocator) -> (out: bool)
    ensures
        out == is_css_module(*locator),
{
    finishes_with(&chars_of(locator.specifier.as_str()), &chars_of(".module.css"))
}

/// The result of a style sheet that stays one: the minified code, or the
/// message of the backend where it failed.
pub fn transform_css(minified: Result<String, String>) -> (out: OnTransformResult)
    ensures
        match minified {
            Ok(code) => is_plain_result(out, "text/css"@, code@),
            Err(message) => out.dependencies@.len() == 0 && out.result is Err
                && out.result->Err_0.is_single(message@, Seq::empty()),
        },
{
    match minified {
        Ok(code) => OnTransformResult {
            result: Ok(
                OnTransformResultData {
                    mime_type: "text/css".to_owned(),
                    code,
                    map: None,
                    imports: Vec::new(),
                },
            ),
            dependencies: Vec::new(),
        },
        Err(message) => OnTransformResult {
            result: Err(CompilationError::from_string(message)),
            dependencies: Vec::new(),
        },
    }
}

/// The script statement that puts a style sheet into the page: it finds
/// the style element of the module, or makes it, and sets its content.
pub open spec fn style_injection(code: Seq<char>) -> Seq<char> {
    "if (typeof document !== 'undefined') {\n  let node = document.head.querySelector(`.esfuse-css-module[data-name=\"${module.id}\"]`);\n\n  if (!node) {\n    node = document.createElement('style');\n    node.type = 'text/css';\n    node.classList.add('esfuse-css-module');\n    node.setAttribute('data-name', module.id);\n    document.head.appendChild(node);\n  }\n\n  node.textContent = "@
        + json_quoted(code) + ";\n}\n\n"@
}

/// One exported name as a line of the `styles` object.
pub open spec fn style_line(e: CssExportView) -> Seq<char> {
    "\n  ["@ + json_quoted(e.name) + "]: "@ + json_quoted(e.generated) + ",\n"@
}

/// The lines of the `styles` object, in the order of the exports.
pub open spec fn style_lines(exports: Seq<CssExportView>) -> Seq<char>
    decreases exports.len(),
{
    if exports.len() == 0 {
        Seq::empty()
    } else {
        style_lines(exports.drop_last()) + style_line(exports.last())
    }
}

/// The names of a list of exports, as they are written.
pub open spec fn export_names(exports: Seq<CssExportView>) -> Seq<Seq<char>> {
    exports.map_values(|e: CssExportView| e.name)
}

/// The exports of a list in the order of their names; exports of one name
/// keep their order.
pub open spec fn exports_by_name(exports: Seq<CssExportView>) -> Seq<CssExportView> {
    ascending_order(export_names(exports), exports.len() as int).map_values(|i: int| exports[i])
}

/// The script that a style sheet is wrapped in: the statement that puts it
/// into the page and, where the style sheet exports names, the `styles`
/// object that maps each name to the name generated for it, the names in
/// ascending order.
pub open spec fn css_script(code: Seq<char>, exports: Option<Seq<CssExportView>>) -> Seq<char> {
    match exports {
        Some(exports) => style_injection(code) + "\nexport const styles = {\n"@ + style_lines(
            exports_by_name(exports),
        ) + "\n};\n"@,
        None => style_injection(code),
    }
}

fn write_style_lines(generated: &mut Vec<char>, exports: &Vec<CssExport>)
    ensures
        final(generated)@ == old(generated)@ + style_lines(exports_by_name(exports_view(exports@))),
{
    let ghost view = exports_view(exports@);
    let mut keys: Vec<String> = Vec::new();
    let mut n: usize = 0;
    while n < exports.len()
        invariant
            n <= exports.len(),
            view == exports_view(exports@),
            keys_view(keys@) == export_names(view).take(n as int),
        decreases exports.len() - n,
    {
        let key = exports[n].name.clone();
        proof {
            assert(keys_view(keys@.push(key)) =~= keys_view(keys@).push(key@));
            assert(export_names(view).take(n + 1) =~= export_names(view).take(n as int).push(
                key@,
            ));
        }
        keys.push(key);
        n += 1;
    }
    assert(export_names(view).take(exports@.len() as int) =~= export_names(view));
    let order = sort_indices(&keys);
    let ghost positions = positions_view(order@);
    let ghost sorted = exports_by_name(view);
    assert(sorted =~= positions.map_values(|i: int| view[i]));
    let ghost head = generated@;
    let mut i: usize = 0;
    assert(generated@ =~= head + style_lines(sorted.take(0)));
    while i < order.len()
        invariant
            i <= order.len(),
            view == exports_view(exports@),
            positions == positions_view(order@),
            is_arrangement(positions, exports@.len() as int),
            sorted == positions.map_values(|i: int| view[i]),
            generated@ == head + style_lines(sorted.take(i as int)),
        decreases order.len() - i,
    {
        let ghost was = generated@;
        assert(positions[i as int] == order@[i as int]);
        let e = &exports[order[i]];
        push_text(generated, "\n  [");
        push_text(generated, json_quote(e.name.as_str()).as_str());
        push_text(generated, "]: ");
        push_text(generated, json_quote(e.generated.as_str()).as_str());
        push_text(generated, ",\n");
        proof {
            assert(sorted.take(i + 1).drop_last() =~= sorted.take(i as int));
            assert(sorted.take(i + 1).last() == e@);
            assert(generated@ =~= was + style_line(e@));
            assert(generated@ =~= head + style_lines(sorted.take(i + 1)));
        }
        i += 1;
    }
    assert(sorted.take(order@.len() as int) =~= sorted);
}

/// The script that a minified style sheet is wrapped in. It goes through
/// the script pass next.
pub fn transform_css_js(code: &str, exports: &Option<Vec<CssExport>>) -> (out: String)
    ensures
        out@ == css_script(
            code@,
            match *exports {
                Some(e) => Some(exports_view(e@)),
                None => None,
            },
        ),
{
    let mut generated = chars_of(
        "if (typeof document !== 'undefined') {\n  let node = document.head.querySelector(`.esfuse-css-module[data-name=\"${module.id}\"]`);\n\n  if (!node) {\n    node = document.createElement('style');\n    node.type = 'text/css';\n    node.classList.add('esfuse-css-module');\n    node.setAttribute('data-name', module.id);\n    document.head.appendChild(node);\n  }\n\n  node.textContent = ",
    );
    push_text(&mut generated, json_quote(code).as_str());
    push_text(&mut generated, ";\n}\n\n");
    assert(generated@ =~= style_injection(code@));
    match exports {
        Some(exports) => {
            push_text(&mut generated, "\nexport const styles = {\n");
            write_style_lines(&mut generated, exports);
            push_text(&mut generated, "\n};\n");
        },
        None => {},
    }
    string_of(&generated)
}

} // verus!
