//! Tests on the library's own data model, built by hand, without a parser.
use malva::ast::{
    Comment, CommentKind, ComponentValue, Declaration, PropertyName, QualifiedRule, Selector,
    SimpleBlock, Statement, Stylesheet,
};
use malva::config::FormatOptions;
use malva::doc::LayoutDoc;
use malva::error::Error;
use malva::{LineBounds, Span, Syntax};

fn text(s: &str) -> LayoutDoc {
    LayoutDoc::Text(s.to_string())
}

fn node(s: &str, start: usize, end: usize) -> ComponentValue {
    ComponentValue::Node { doc: text(s), span: Span::new(start, end) }
}

/// The statement `color:red` of the source `a{color:red;/*c*/margin:0}`.
fn color_red() -> Statement {
    Statement::Declaration(Declaration {
        name: PropertyName::Literal { name: "color".to_string() },
        less_property_merge: None,
        colon_span: Span::new(7, 8),
        value: vec![node("red", 8, 11)],
        important: None,
        span: Span::new(2, 11),
    })
}

/// The statement `margin:0` of the same source.
fn margin_zero() -> Statement {
    Statement::Declaration(Declaration {
        name: PropertyName::Literal { name: "margin".to_string() },
        less_property_merge: None,
        colon_span: Span::new(23, 24),
        value: vec![node("0", 24, 25)],
        important: None,
        span: Span::new(17, 25),
    })
}

fn example_stylesheet() -> Stylesheet {
    Stylesheet {
        statements: vec![Statement::QualifiedRule(QualifiedRule {
            selectors: vec![Selector { doc: text("a"), span: Span::new(0, 1) }],
            block: SimpleBlock {
                statements: vec![color_red(), margin_zero()],
                span: Span::new(1, 26),
            },
            span: Span::new(0, 26),
        })],
        span: Span::new(0, 26),
    }
}

fn example_comments() -> Vec<Comment> {
    vec![Comment { kind: CommentKind::Block, span: Span::new(12, 17), text: "/*c*/".to_string() }]
}

#[test]
fn hand_built_example_formats() {
    let src = "a{color:red;/*c*/margin:0}";
    let out = malva::print_stylesheet(
        &example_stylesheet(),
        example_comments(),
        LineBounds::new(src.as_bytes()),
        Syntax::Css,
        &FormatOptions::default(),
    );
    assert_eq!(out.unwrap(), "a {\n  color: red; /*c*/\n  margin: 0;\n}\n");
}

#[test]
fn unsupported_statement_carries_its_location() {
    let sheet = Stylesheet {
        statements: vec![Statement::Unsupported(Span::new(3, 9))],
        span: Span::new(0, 10),
    };
    let out = malva::print_stylesheet(
        &sheet,
        vec![],
        LineBounds::new(b"0123456789"),
        Syntax::Css,
        &FormatOptions::default(),
    );
    assert_eq!(out.unwrap_err(), Error::UnsupportedStatement { span: Span::new(3, 9) });
}

#[test]
fn empty_stylesheet_renders_empty() {
    let sheet = Stylesheet { statements: vec![], span: Span::new(0, 0) };
    let out = malva::print_stylesheet(
        &sheet,
        vec![],
        LineBounds::new(b""),
        Syntax::Css,
        &FormatOptions::default(),
    );
    assert_eq!(out.unwrap(), "");
}

#[test]
fn empty_block_renders_as_two_lines() {
    let sheet = Stylesheet {
        statements: vec![Statement::QualifiedRule(QualifiedRule {
            selectors: vec![Selector { doc: text("a"), span: Span::new(0, 1) }],
            block: SimpleBlock { statements: vec![], span: Span::new(1, 3) },
            span: Span::new(0, 3),
        })],
        span: Span::new(0, 3),
    };
    let out = malva::print_stylesheet(
        &sheet,
        vec![],
        LineBounds::new(b"a{}"),
        Syntax::Css,
        &FormatOptions::default(),
    );
    assert_eq!(out.unwrap(), "a {\n}\n");
}

#[test]
fn comment_in_empty_block_is_kept() {
    let src = "a{/*c*/}";
    let sheet = Stylesheet {
        statements: vec![Statement::QualifiedRule(QualifiedRule {
            selectors: vec![Selector { doc: text("a"), span: Span::new(0, 1) }],
            block: SimpleBlock { statements: vec![], span: Span::new(1, 8) },
            span: Span::new(0, 8),
        })],
        span: Span::new(0, 8),
    };
    let comments =
        vec![Comment { kind: CommentKind::Block, span: Span::new(2, 7), text: "/*c*/".to_string() }];
    let out = malva::print_stylesheet(
        &sheet,
        comments,
        LineBounds::new(src.as_bytes()),
        Syntax::Css,
        &FormatOptions::default(),
    );
    assert_eq!(out.unwrap(), "a {\n  /*c*/\n}\n");
}

#[test]
fn error_message_names_the_failure() {
    let e = Error::UnsupportedStatement { span: Span::new(0, 1) };
    assert_eq!(e.message(), "unsupported statement kind");
}

#[test]
fn default_options_match_documented_values() {
    let options = FormatOptions::default();
    assert_eq!(options.layout.print_width, 80);
    assert_eq!(options.layout.indent_width, 2);
    assert!(!options.layout.use_tabs);
    assert_eq!(options.language.block_selector_linebreak,
        malva::config::BlockSelectorLineBreak::Consistent);
}
