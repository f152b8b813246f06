//! End-to-end tests: source text is parsed with raffia, carried into the
//! library's data model, and formatted by `print_stylesheet`.
use malva::ast::{
    Comment, CommentKind, ComponentValue, Declaration, DelimiterKind, ImportantAnnotation,
    PropertyName, QualifiedRule, Selector, SimpleBlock, Statement, Stylesheet,
};
use malva::config::{BlockSelectorLineBreak, FormatOptions};
use malva::doc::LayoutDoc;
use malva::{LineBounds, Span, Syntax};
use raffia::{ast as rast, token, ParserBuilder, Spanned};

fn sp(s: &raffia::pos::Span) -> Span {
    Span::new(s.start, s.end)
}

fn slice_text(input: &str, s: &raffia::pos::Span) -> LayoutDoc {
    LayoutDoc::Text(input[s.start..s.end].to_string())
}

fn convert_component(v: &rast::ComponentValue, input: &str) -> ComponentValue {
    match v {
        rast::ComponentValue::Delimiter(d) => ComponentValue::Delimiter {
            kind: match d.kind {
                rast::DelimiterKind::Comma => DelimiterKind::Comma,
                rast::DelimiterKind::Solidus => DelimiterKind::Solidus,
                rast::DelimiterKind::Semicolon => DelimiterKind::Semicolon,
            },
            doc: slice_text(input, &d.span),
            span: sp(&d.span),
        },
        rast::ComponentValue::TokenWithSpan(t) => ComponentValue::Token {
            is_separator: matches!(
                t.token,
                token::Token::Comma(..) | token::Token::Semicolon(..)
            ),
            doc: slice_text(input, &t.span),
            span: sp(&t.span),
        },
        rast::ComponentValue::SassNestingDeclaration(n) => ComponentValue::SassNesting {
            doc: slice_text(input, n.span()),
            span: sp(n.span()),
        },
        other => ComponentValue::Node {
            doc: slice_text(input, other.span()),
            span: sp(other.span()),
        },
    }
}

fn convert_declaration(d: &rast::Declaration, input: &str) -> Declaration {
    Declaration {
        name: match &d.name {
            rast::InterpolableIdent::Literal(id) => PropertyName::Literal {
                name: id.name.to_string(),
            },
            other => PropertyName::Interpolated {
                doc: slice_text(input, other.span()),
                name_span: sp(other.span()),
            },
        },
        less_property_merge: None,
        colon_span: sp(&d.colon_span),
        value: d.value.iter().map(|v| convert_component(v, input)).collect(),
        important: d.important.as_ref().map(|im| ImportantAnnotation { span: sp(&im.span) }),
        span: sp(d.span()),
    }
}

fn convert_block(b: &rast::SimpleBlock, input: &str) -> SimpleBlock {
    SimpleBlock {
        statements: b.statements.iter().map(|s| convert_statement(s, input)).collect(),
        span: sp(&b.span),
    }
}

fn convert_statement(s: &rast::Statement, input: &str) -> Statement {
    match s {
        rast::Statement::Declaration(d) => Statement::Declaration(convert_declaration(d, input)),
        rast::Statement::QualifiedRule(q) => Statement::QualifiedRule(QualifiedRule {
            selectors: q
                .selector
                .selectors
                .iter()
                .map(|sel| Selector { doc: slice_text(input, sel.span()), span: sp(sel.span()) })
                .collect(),
            block: convert_block(&q.block, input),
            span: sp(&q.span),
        }),
        rast::Statement::AtRule(a) => Statement::AtRule(malva::ast::AtRule {
            doc: slice_text(input, &a.span),
            has_block: a.block.is_some(),
            span: sp(&a.span),
        }),
        rast::Statement::KeyframeBlock(k) => Statement::KeyframeBlock(malva::ast::KeyframeBlock {
            doc: slice_text(input, &k.span),
            span: sp(&k.span),
        }),
        other => Statement::Unsupported(sp(other.span())),
    }
}

fn format_source(input: &str, syntax: Syntax, options: &FormatOptions) -> Result<String, String> {
    let rsyntax = match syntax {
        Syntax::Css => raffia::Syntax::Css,
        Syntax::Scss => raffia::Syntax::Scss,
        Syntax::Sass => raffia::Syntax::Sass,
        Syntax::Less => raffia::Syntax::Less,
    };
    let mut comments = vec![];
    let mut parser = ParserBuilder::new(input).syntax(rsyntax).comments(&mut comments).build();
    let stylesheet: rast::Stylesheet = match parser.parse() {
        Ok(s) => s,
        Err(e) => return Err(format!("parse error: {:?}", e)),
    };
    let converted = Stylesheet {
        statements: stylesheet.statements.iter().map(|s| convert_statement(s, input)).collect(),
        span: sp(&stylesheet.span),
    };
    let cs: Vec<Comment> = comments
        .iter()
        .map(|c| Comment {
            kind: match c.kind {
                token::CommentKind::Block => CommentKind::Block,
                token::CommentKind::Line => CommentKind::Line,
            },
            span: sp(&c.span),
            text: input[c.span.start..c.span.end].to_string(),
        })
        .collect();
    let lb = LineBounds::new(input.as_bytes());
    malva::print_stylesheet(&converted, cs, lb, syntax, options)
        .map_err(|e| e.message().to_string())
}

fn default_options() -> FormatOptions {
    FormatOptions::default()
}

#[test]
fn end_to_end_example() {
    let out = format_source("a{color:red;/*c*/margin:0}", Syntax::Css, &default_options());
    assert_eq!(out.unwrap(), "a {\n  color: red; /*c*/\n  margin: 0;\n}\n");
}

#[test]
fn idempotent_on_simple_rule() {
    let options = default_options();
    let once = format_source("a{color:red;/*c*/margin:0}", Syntax::Css, &options).unwrap();
    let twice = format_source(&once, Syntax::Css, &options).unwrap();
    assert_eq!(once, twice);
}

#[test]
fn idempotent_on_blank_lines_and_lists() {
    let options = default_options();
    let src = "a{x:1}\n\n\n\nb{margin:1px 2px 3px 4px;color:red!important}";
    let once = format_source(src, Syntax::Css, &options).unwrap();
    let twice = format_source(&once, Syntax::Css, &options).unwrap();
    assert_eq!(once, twice);
}

#[test]
fn blank_lines_collapse_to_one() {
    let out = format_source("a{x:1}\n\n\n\nb{y:2}", Syntax::Css, &default_options()).unwrap();
    assert_eq!(out, "a {\n  x: 1;\n}\n\nb {\n  y: 2;\n}\n");
}

#[test]
fn adjacent_statements_get_no_blank_line() {
    let out = format_source("a{x:1}\nb{y:2}", Syntax::Css, &default_options()).unwrap();
    assert_eq!(out, "a {\n  x: 1;\n}\nb {\n  y: 2;\n}\n");
}

#[test]
fn one_blank_line_is_kept() {
    let out = format_source("a{x:1}\n\nb{y:2}", Syntax::Css, &default_options()).unwrap();
    assert_eq!(out, "a {\n  x: 1;\n}\n\nb {\n  y: 2;\n}\n");
}

#[test]
fn blank_lines_collapse_inside_blocks() {
    let out = format_source("a{x:1;\n\n\ny:2}", Syntax::Css, &default_options()).unwrap();
    assert_eq!(out, "a {\n  x: 1;\n\n  y: 2;\n}\n");
}

#[test]
fn selector_break_always() {
    let mut options = default_options();
    options.language.block_selector_linebreak = BlockSelectorLineBreak::Always;
    let out = format_source("a,b,c{x:1}", Syntax::Css, &options).unwrap();
    assert_eq!(out, "a,\nb,\nc {\n  x: 1;\n}\n");
}

#[test]
fn selector_break_consistent_fits() {
    let mut options = default_options();
    options.language.block_selector_linebreak = BlockSelectorLineBreak::Consistent;
    let out = format_source("a,b,c{x:1}", Syntax::Css, &options).unwrap();
    assert_eq!(out, "a, b, c {\n  x: 1;\n}\n");
}

#[test]
fn selector_break_consistent_never_mixes() {
    let mut options = default_options();
    options.language.block_selector_linebreak = BlockSelectorLineBreak::Consistent;
    options.layout.print_width = 10;
    let out = format_source("aaaa,bbbb,cccc{x:1}", Syntax::Css, &options).unwrap();
    assert_eq!(out, "aaaa,\nbbbb,\ncccc {\n  x: 1;\n}\n");
}

#[test]
fn selector_break_wrap_breaks_only_overflow() {
    let mut options = default_options();
    options.language.block_selector_linebreak = BlockSelectorLineBreak::Wrap;
    options.layout.print_width = 12;
    let out = format_source("aaaa,bbbb,cccc{x:1}", Syntax::Css, &options).unwrap();
    assert_eq!(out, "aaaa, bbbb,\ncccc {\n  x: 1;\n}\n");
}

#[test]
fn indentation_dialect_has_no_terminators() {
    let out = format_source("a\n  color: red\n  margin: 0", Syntax::Sass, &default_options())
        .unwrap();
    assert!(!out.contains(';'));
    assert!(out.contains("color: red"));
    assert!(out.contains("margin: 0"));
}

#[test]
fn brace_dialect_declaration_gets_terminator() {
    let out = format_source("a{color:red}", Syntax::Css, &default_options()).unwrap();
    assert_eq!(out, "a {\n  color: red;\n}\n");
}

#[test]
fn opaque_value_keeps_author_break() {
    let mut options = default_options();
    options.layout.print_width = 12;
    let out = format_source("a{--x: 1px\n    2px;}", Syntax::Css, &options).unwrap();
    assert_eq!(out, "a {\n  --x: 1px\n    2px;\n}\n");
}

#[test]
fn structured_value_is_reflowed_by_width() {
    let out = format_source("a{margin: 1px\n    2px}", Syntax::Css, &default_options()).unwrap();
    assert_eq!(out, "a {\n  margin: 1px 2px;\n}\n");
}

#[test]
fn filter_property_is_opaque_in_any_case() {
    let mut options = default_options();
    options.layout.print_width = 14;
    let out = format_source("a{FILTER: alpha(x)\n    beta(y);}", Syntax::Css, &options).unwrap();
    assert_eq!(out, "a {\n  FILTER: alpha(x)\n    beta(y);\n}\n");
}

#[test]
fn comments_are_conserved_in_order() {
    let src = "/*one*/a{x:1;/*two*/y:2}/*three*/";
    let out = format_source(src, Syntax::Css, &default_options()).unwrap();
    assert_eq!(out.matches("/*one*/").count(), 1);
    assert_eq!(out.matches("/*two*/").count(), 1);
    assert_eq!(out.matches("/*three*/").count(), 1);
    let p1 = out.find("/*one*/").unwrap();
    let p2 = out.find("/*two*/").unwrap();
    let p3 = out.find("/*three*/").unwrap();
    assert!(p1 < p2 && p2 < p3);
}

#[test]
fn comment_before_first_statement_gets_its_own_line() {
    let out = format_source("a{/*lead*/x:1}", Syntax::Css, &default_options()).unwrap();
    assert_eq!(out, "a {\n  /*lead*/\n  x: 1;\n}\n");
}

#[test]
fn idempotent_on_comment_placement() {
    let options = default_options();
    let src = "a{/*lead*/x:1;\n/*mid*/\ny:2}";
    let once = format_source(src, Syntax::Css, &options).unwrap();
    let twice = format_source(&once, Syntax::Css, &options).unwrap();
    assert_eq!(once, twice);
}

#[test]
fn comment_between_values_is_interleaved() {
    let out = format_source("a{margin: 0 /*gap*/ auto}", Syntax::Css, &default_options()).unwrap();
    assert_eq!(out, "a {\n  margin: 0 /*gap*/ auto;\n}\n");
}

#[test]
fn important_marker_is_rendered() {
    let out = format_source("a{color:red !important}", Syntax::Css, &default_options()).unwrap();
    assert_eq!(out, "a {\n  color: red !important;\n}\n");
}

#[test]
fn unsupported_statement_is_reported() {
    let err = format_source("@var: 1;", Syntax::Less, &default_options()).unwrap_err();
    assert_eq!(err, "unsupported statement kind");
}

#[test]
fn bodyless_at_rule_gets_terminator() {
    let out = format_source("@charset \"utf-8\";", Syntax::Css, &default_options()).unwrap();
    assert_eq!(out, "@charset \"utf-8\";\n");
}

#[test]
fn nested_rules_are_formatted_recursively() {
    let out = format_source("a{b{x:1}c{y:2}}", Syntax::Scss, &default_options()).unwrap();
    assert_eq!(out, "a {\n  b {\n    x: 1;\n  }\n  c {\n    y: 2;\n  }\n}\n");
}

#[test]
fn line_comment_trails_its_statement() {
    let out = format_source("a{x:1; //c\n}", Syntax::Scss, &default_options()).unwrap();
    assert_eq!(out, "a {\n  x: 1; //c\n}\n");
}

#[test]
fn crlf_line_breaks_are_used_when_configured() {
    let mut options = default_options();
    options.layout.line_break = malva::config::LineBreak::Crlf;
    let out = format_source("a{x:1}", Syntax::Css, &options).unwrap();
    assert_eq!(out, "a {\r\n  x: 1;\r\n}\r\n");
}

#[test]
fn tabs_are_used_when_configured() {
    let mut options = default_options();
    options.layout.use_tabs = true;
    let out = format_source("a{x:1}", Syntax::Css, &options).unwrap();
    assert_eq!(out, "a {\n\tx: 1;\n}\n");
}
