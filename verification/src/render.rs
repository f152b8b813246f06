//! The boundary to the width-aware layout renderer. Everything above this
//! module is verified; this module holds the one call into the renderer.
use crate::config::LineBreak;
use crate::doc::{LayoutDoc, LayoutDocV};
use vstd::prelude::*;

verus! {

#[verifier::external_type_specification]
#[verifier::external_body]
pub struct ExTinyDoc<'a>(tiny_pretty::Doc<'a>);

/// The text that the layout renderer produces for a document under the given
/// rendering parameters. Rendering is deterministic: it depends on the
/// document, the indentation kind and width, and the line-ending style alone.
pub uninterp spec fn pretty_print(
    doc: LayoutDocV,
    use_tabs: bool,
    width: int,
    tab_size: int,
    crlf: bool,
) -> Seq<char>;

/// Unverified bridge used only by `render_doc` below: translates a layout
/// document, variant for variant, into the renderer's own document type.
#[verifier::external_body]
fn to_pretty(d: &LayoutDoc) -> (r: tiny_pretty::Doc<'static>) {
    match d {
        LayoutDoc::Text(s) => tiny_pretty::Doc::text(s.clone()),
        LayoutDoc::Space => tiny_pretty::Doc::space(),
        LayoutDoc::HardLine => tiny_pretty::Doc::hard_line(),
        LayoutDoc::SoftLine => tiny_pretty::Doc::soft_line(),
        LayoutDoc::LineOrSpace => tiny_pretty::Doc::line_or_space(),
        LayoutDoc::EmptyLine => tiny_pretty::Doc::empty_line(),
        LayoutDoc::List(ds) => tiny_pretty::Doc::list(ds.iter().map(to_pretty).collect()),
        LayoutDoc::Group(ds) => tiny_pretty::Doc::list(ds.iter().map(to_pretty).collect()).group(),
        LayoutDoc::Nest(n, ds) => tiny_pretty::Doc::list(ds.iter().map(to_pretty).collect()).nest(*n),
    }
}

/// Relies on tiny_pretty::print: given a document and print options it
/// deterministically renders final text, resolving every conditional break
/// and fitting group against the width. The renderer documents that the tab
/// size must not be zero and asserts it on entry, so that input is left out.
#[verifier::external_body]
pub(crate) fn render_doc(
    doc: &LayoutDoc,
    use_tabs: bool,
    width: usize,
    tab_size: usize,
    line_break: LineBreak,
) -> (r: String)
    requires
        tab_size > 0,
    ensures
        r@ == pretty_print(doc@, use_tabs, width as int, tab_size as int, line_break
            == LineBreak::Crlf),
{
    let options = tiny_pretty::PrintOptions {
        indent_kind: if use_tabs { tiny_pretty::IndentKind::Tab } else { tiny_pretty::IndentKind::Space },
        line_break: match line_break {
            LineBreak::Lf => tiny_pretty::LineBreak::Lf,
            LineBreak::Crlf => tiny_pretty::LineBreak::Crlf,
        },
        width,
        tab_size,
    };
    tiny_pretty::print(&to_pretty(doc), &options)
}

} // verus!
