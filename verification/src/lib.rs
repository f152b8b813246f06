pub mod ast;
pub mod config;
pub mod ctx;
pub mod doc;
pub mod doc_gen;
pub mod error;
pub mod laws;
pub mod line_bounds;
pub mod render;

pub use config::Syntax;
pub use error::Error;
pub use line_bounds::LineBounds;

use crate::ast::{Comment, Stylesheet};
use crate::config::{FormatOptions, LineBreak};
use crate::ctx::Ctx;
use crate::doc_gen::stylesheet_doc;
use crate::render::{pretty_print, render_doc};
use vstd::prelude::*;

verus! {

/// A half-open byte range into the original source text.
#[derive(Clone, Copy, PartialEq, Eq, Structural, Debug)]
pub struct Span {
    pub start: usize,
    pub end: usize,
}

impl Span {
    pub fn new(start: usize, end: usize) -> (r: Span)
        ensures
            r.start == start,
            r.end == end,
    {
        Span { start, end }
    }
}

/// The context one formatting run works under.
pub open spec fn run_ctx(
    syntax: Syntax,
    options: FormatOptions,
    comments: Vec<Comment>,
    line_bounds: LineBounds,
) -> Ctx {
    Ctx {
        syntax,
        options: options.language,
        indent_width: options.layout.indent_width,
        comments,
        line_bounds,
    }
}

/// Renders a parsed stylesheet, with its out-of-band comment list and
/// line-boundary index, to formatted text: the layout document of
/// `stylesheet_doc` is built and handed to the width-aware renderer. Fails
/// exactly on a stylesheet holding a statement kind the formatter does not
/// handle, naming the offending source range. The indentation width doubles
/// as the renderer's tab size, which the renderer requires to be nonzero.
pub fn print_stylesheet(
    stylesheet: &Stylesheet,
    comments: Vec<Comment>,
    line_bounds: LineBounds,
    syntax: Syntax,
    options: &FormatOptions,
) -> (r: Result<String, Error>)
    requires
        options.layout.indent_width > 0,
    ensures
        (match r {
            Ok(s) => stylesheet_doc(*stylesheet, run_ctx(syntax, *options, comments, line_bounds))
                matches Ok(d) && s@ == pretty_print(
                d,
                options.layout.use_tabs,
                options.layout.print_width as int,
                options.layout.indent_width as int,
                options.layout.line_break == LineBreak::Crlf,
            ),
            Err(e) => stylesheet_doc(*stylesheet, run_ctx(syntax, *options, comments, line_bounds))
                matches Err(sp) && e == (Error::UnsupportedStatement { span: sp }),
        }),
{
    let ctx = Ctx {
        syntax,
        options: options.language,
        indent_width: options.layout.indent_width,
        comments,
        line_bounds,
    };
    let doc = match stylesheet.doc(&ctx) {
        Ok(d) => d,
        Err(e) => {
            return Err(e);
        },
    };
    let rendered = render_doc(
        &doc,
        options.layout.use_tabs,
        options.layout.print_width,
        options.layout.indent_width,
        options.layout.line_break,
    );
    Ok(rendered)
}

} // verus!
