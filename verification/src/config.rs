//! Formatting configuration and the dialect selector.
use vstd::prelude::*;

verus! {

/// The CSS-family grammar variant in effect. `Sass` is the indentation-based
/// dialect: blocks have no braces and statements no `;` terminators.
#[derive(Clone, Copy, PartialEq, Eq, Structural, Debug)]
pub enum Syntax {
    Css,
    Scss,
    Sass,
    Less,
}

/// How the comma-separated selectors of a qualified rule may break over lines.
#[derive(Clone, Copy, PartialEq, Eq, Structural, Debug)]
pub enum BlockSelectorLineBreak {
    /// An unconditional break after every comma.
    Always,
    /// One fit decision for the whole selector list: all break or none does.
    Consistent,
    /// Each comma breaks independently, only when needed to fit the width.
    Wrap,
}

/// The line terminator used in rendered output.
#[derive(Clone, Copy, PartialEq, Eq, Structural, Debug)]
pub enum LineBreak {
    Lf,
    Crlf,
}

/// Options of the width-aware renderer.
#[derive(Clone, Copy, PartialEq, Eq, Structural, Debug)]
pub struct LayoutOptions {
    /// Preferred maximum line width.
    pub print_width: usize,
    /// Indent with tabs instead of spaces.
    pub use_tabs: bool,
    /// Number of columns per indentation level.
    pub indent_width: usize,
    /// Line terminator style.
    pub line_break: LineBreak,
}

/// Options of the formatting decisions themselves.
#[derive(Clone, Copy, PartialEq, Eq, Structural, Debug)]
pub struct LanguageOptions {
    /// Break policy for selector lists of qualified rules.
    pub block_selector_linebreak: BlockSelectorLineBreak,
}

/// The whole configuration bundle of one formatting run.
#[derive(Clone, Copy, PartialEq, Eq, Structural, Debug)]
pub struct FormatOptions {
    pub layout: LayoutOptions,
    pub language: LanguageOptions,
}

impl Default for LayoutOptions {
    /// 80 columns, two spaces per indentation level, LF line endings.
    fn default() -> (r: LayoutOptions)
        ensures
            r == (LayoutOptions {
                print_width: 80,
                use_tabs: false,
                indent_width: 2,
                line_break: LineBreak::Lf,
            }),
    {
        LayoutOptions { print_width: 80, use_tabs: false, indent_width: 2, line_break: LineBreak::Lf }
    }
}

impl Default for LanguageOptions {
    fn default() -> (r: LanguageOptions)
        ensures
            r == (LanguageOptions { block_selector_linebreak: BlockSelectorLineBreak::Consistent }),
    {
        LanguageOptions { block_selector_linebreak: BlockSelectorLineBreak::Consistent }
    }
}

impl Default for FormatOptions {
    fn default() -> (r: FormatOptions)
        ensures
            r == (FormatOptions {
                layout: LayoutOptions {
                    print_width: 80,
                    use_tabs: false,
                    indent_width: 2,
                    line_break: LineBreak::Lf,
                },
                language: LanguageOptions {
                    block_selector_linebreak: BlockSelectorLineBreak::Consistent,
                },
            }),
    {
        FormatOptions { layout: LayoutOptions::default(), language: LanguageOptions::default() }
    }
}

} // verus!
