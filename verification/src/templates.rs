//! Templates, compiled and rendered by the `handlebars` crate.
//!
//! Whether a text compiles, and what a template renders to over a record, is
//! the work of the crate: both are named here and not spelled out.

use crate::value::{tree_of, Tree};
use vstd::prelude::*;
use vstd::string::StringSliceAdditionalSpecFns;

verus! {

#[verifier::external_type_specification]
#[verifier::external_body]
pub struct ExHandlebars<'reg>(handlebars::Handlebars<'reg>);

#[verifier::external_type_specification]
#[verifier::external_body]
pub struct ExTemplateError(handlebars::TemplateError);

#[verifier::external_type_specification]
#[verifier::external_body]
pub struct ExRenderError(handlebars::RenderError);

/// The templates of a registry: the source text under each name.
pub uninterp spec fn templates_of(h: handlebars::Handlebars<'static>) -> Map<Seq<char>, Seq<char>>;

/// Whether a registry is in strict mode, in which a template that names a
/// field that the data lacks fails to render.
pub uninterp spec fn strict_of(h: handlebars::Handlebars<'static>) -> bool;

/// Whether a text compiles as a template.
pub uninterp spec fn template_ok(source: Seq<char>) -> bool;

/// What the template `name` renders to over `data`, in a registry with these
/// templates and the helpers that every registry starts with, or `None` where
/// the rendering fails. This speaks of registries of which no template
/// includes a partial.
pub uninterp spec fn rendered(
    templates: Map<Seq<char>, Seq<char>>,
    strict: bool,
    name: Seq<char>,
    data: Tree,
) -> Option<Seq<char>>;

/// `Handlebars::new`: a registry without templates, not in strict mode.
#[verifier::external_body]
pub(crate) fn templates_new() -> (h: handlebars::Handlebars<'static>)
    ensures
        templates_of(h) == (Map::<Seq<char>, Seq<char>>::empty()),
        !strict_of(h),
{
    handlebars::Handlebars::new()
}

/// `Handlebars::set_strict_mode`: switches strict mode; the templates stay.
#[verifier::external_body]
pub(crate) fn templates_strict(h: &mut handlebars::Handlebars<'static>, enabled: bool)
    ensures
        strict_of(*final(h)) == enabled,
        templates_of(*final(h)) == templates_of(*old(h)),
{
    h.set_strict_mode(enabled);
}

/// `Handlebars::register_template_string`: compiles a text and, where it
/// compiles, keeps it under the name, in place of a template that had the
/// name. Where it does not compile the registry stays as it was. Whether a
/// text compiles depends on the text alone.
#[verifier::external_body]
pub(crate) fn templates_register(
    h: &mut handlebars::Handlebars<'static>,
    name: &str,
    source: &str,
) -> (r: Result<(), handlebars::TemplateError>)
    ensures
        r is Ok == template_ok(source@),
        strict_of(*final(h)) == strict_of(*old(h)),
        templates_of(*final(h)) == if r is Ok {
            templates_of(*old(h)).insert(name@, source@)
        } else {
            templates_of(*old(h))
        },
{
    h.register_template_string(name, source)
}

/// `Handlebars::render` over a JSON value: the text that the named template
/// renders to, or the error of the rendering.
///
/// The registry holds no template that includes a partial. Then no template
/// renders another, so the rendering ends, and no hash of a partial is
/// walked, so the outcome depends on the templates of the registry, its
/// mode, the name and what the value holds.
#[verifier::external_body]
pub(crate) fn templates_render(
    h: &handlebars::Handlebars<'static>,
    name: &str,
    data: &serde_json::Value,
) -> (r: Result<String, handlebars::RenderError>)
    requires
        partial_free(templates_of(*h)),
    ensures
        match r {
            Ok(text) => rendered(templates_of(*h), strict_of(*h), name@, tree_of(*data)) == Some(
                text@,
            ),
            Err(_) => rendered(templates_of(*h), strict_of(*h), name@, tree_of(*data)) is None,
        },
{
    h.render(name, data)
}

/// The message of a `handlebars::TemplateError`, as its `Display` writes it.
#[verifier::external_body]
pub(crate) fn template_error_text(e: &handlebars::TemplateError) -> (text: String) {
    e.to_string()
}

/// The message of a `handlebars::RenderError`, as its `Display` writes it.
#[verifier::external_body]
pub(crate) fn render_error_text(e: &handlebars::RenderError) -> (text: String) {
    e.to_string()
}

/// A byte that may stand between the opening braces of a tag and its first
/// character: a blank, `~` or `#`.
pub open spec fn is_filler(b: u8) -> bool {
    b == 32 || b == 9 || b == 10 || b == 13 || b == 126 || b == 35
}

/// The position of the first byte from `from` on that is no filler.
pub open spec fn after_filler(bytes: Seq<u8>, from: int) -> int
    decreases bytes.len() - from,
{
    if 0 <= from < bytes.len() && is_filler(bytes[from]) {
        after_filler(bytes, from + 1)
    } else {
        from
    }
}

/// Whether a tag opens at `i` whose first character after the filler is `>`.
pub open spec fn partial_at(bytes: Seq<u8>, i: int) -> bool {
    &&& 0 <= i
    &&& i + 1 < bytes.len()
    &&& bytes[i] == 123
    &&& bytes[i + 1] == 123
    &&& after_filler(bytes, i + 2) < bytes.len()
    &&& bytes[after_filler(bytes, i + 2)] == 62
}

/// Whether a template includes a partial: somewhere in its text `{{` is
/// followed, after blanks, `~` and `#`, by `>`. Every partial and every block
/// of a partial opens so.
pub open spec fn has_partial(source: Seq<char>) -> bool {
    exists|i: int| partial_at(vstd::utf8::encode_utf8(source), i)
}

/// Whether none of some templates includes a partial.
pub open spec fn partial_free(templates: Map<Seq<char>, Seq<char>>) -> bool {
    forall|name: Seq<char>|
        templates.dom().contains(name) ==> !has_partial(#[trigger] templates[name])
}

fn filler(b: u8) -> (r: bool)
    ensures
        r == is_filler(b),
{
    b == 32 || b == 9 || b == 10 || b == 13 || b == 126 || b == 35
}

/// Says whether a template includes a partial.
pub fn includes_partial(source: &str) -> (r: bool)
    ensures
        r == has_partial(source@),
{
    let bytes = source.as_bytes();
    let n = bytes.len();
    let mut i: usize = 0;
    while i < n
        invariant
            i <= n == bytes@.len(),
            bytes@ == vstd::utf8::encode_utf8(source@),
            forall|k: int| 0 <= k < i ==> !partial_at(bytes@, k),
        decreases n - i,
    {
        if bytes[i] == 123 && i + 1 < n && bytes[i + 1] == 123 {
            let mut j: usize = i + 2;
            while j < n && filler(bytes[j])
                invariant
                    i + 2 <= j <= n == bytes@.len(),
                    after_filler(bytes@, i + 2) == after_filler(bytes@, j as int),
                decreases n - j,
            {
                j = j + 1;
            }
            if j < n && bytes[j] == 62 {
                assert(partial_at(bytes@, i as int));
                return true;
            }
        }
        i = i + 1;
    }
    assert forall|k: int| !partial_at(bytes@, k) by {
        if 0 <= k < n {
        }
    }
    false
}

} // verus!
