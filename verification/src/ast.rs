//! The data model this formatter works on: a stylesheet as an ordered tree of
//! statements annotated with source byte ranges, plus the out-of-band comment
//! list. Sub-constructs whose layout is decided elsewhere (selectors, at-rule
//! preludes, parsed value nodes) enter this model as ready-made layout
//! fragments; everything this formatter itself decides is plain data.
use crate::doc::LayoutDoc;
use crate::Span;
use vstd::prelude::*;

verus! {

/// Kind of a source comment.
#[derive(Clone, Copy, PartialEq, Eq, Structural, Debug)]
pub enum CommentKind {
    /// `/* ... */`
    Block,
    /// `// ...`
    Line,
}

/// One source comment. `text` is the comment exactly as it stands in the
/// source, delimiters included.
pub struct Comment {
    pub kind: CommentKind,
    pub span: Span,
    pub text: String,
}

impl Comment {
    /// An equal copy.
    pub fn duplicate(&self) -> (r: Comment)
        ensures
            r == *self,
    {
        Comment { kind: self.kind, span: self.span, text: self.text.clone() }
    }
}

/// The property name of a declaration.
pub enum PropertyName {
    /// A literal identifier; its fragment is the name itself.
    Literal { name: String },
    /// An interpolated name (dialect-specific); its fragment is prebuilt.
    Interpolated { doc: LayoutDoc, name_span: Span },
}

/// A vendor property-merge annotation (`+` or `+_`), prebuilt.
pub struct PropertyMerge {
    pub doc: LayoutDoc,
    pub span: Span,
}

/// The importance marker of a declaration.
#[derive(Clone, Copy, PartialEq, Eq, Structural, Debug)]
pub struct ImportantAnnotation {
    pub span: Span,
}

/// Kind of a parsed delimiter node standing between value nodes.
#[derive(Clone, Copy, PartialEq, Eq, Structural, Debug)]
pub enum DelimiterKind {
    Comma,
    Solidus,
    Semicolon,
}

/// One component of a declaration's value.
pub enum ComponentValue {
    /// A raw lexical token. `is_separator` marks a comma or semicolon token.
    Token { is_separator: bool, doc: LayoutDoc, span: Span },
    /// A parsed delimiter node.
    Delimiter { kind: DelimiterKind, doc: LayoutDoc, span: Span },
    /// A nesting-declaration marker of indentation-syntax dialects; a
    /// construct that terminates itself.
    SassNesting { doc: LayoutDoc, span: Span },
    /// Any other parsed value node, prebuilt.
    Node { doc: LayoutDoc, span: Span },
}

impl ComponentValue {
    /// The source range of this component.
    pub fn span(&self) -> (r: Span)
        ensures
            r == self.spec_span(),
    {
        match self {
            ComponentValue::Token { span, .. } => *span,
            ComponentValue::Delimiter { span, .. } => *span,
            ComponentValue::SassNesting { span, .. } => *span,
            ComponentValue::Node { span, .. } => *span,
        }
    }

    pub open spec fn spec_span(&self) -> Span {
        match self {
            ComponentValue::Token { span, .. } => *span,
            ComponentValue::Delimiter { span, .. } => *span,
            ComponentValue::SassNesting { span, .. } => *span,
            ComponentValue::Node { span, .. } => *span,
        }
    }

    /// The prebuilt fragment of this component.
    pub open spec fn spec_doc(&self) -> LayoutDoc {
        match self {
            ComponentValue::Token { doc, .. } => *doc,
            ComponentValue::Delimiter { doc, .. } => *doc,
            ComponentValue::SassNesting { doc, .. } => *doc,
            ComponentValue::Node { doc, .. } => *doc,
        }
    }

    /// The prebuilt fragment, borrowed.
    pub fn doc_ref(&self) -> (r: &LayoutDoc)
        ensures
            *r == self.spec_doc(),
    {
        match self {
            ComponentValue::Token { doc, .. } => doc,
            ComponentValue::Delimiter { doc, .. } => doc,
            ComponentValue::SassNesting { doc, .. } => doc,
            ComponentValue::Node { doc, .. } => doc,
        }
    }

    /// Whether this is a raw comma or semicolon token.
    pub fn is_separator_token(&self) -> (r: bool)
        ensures
            r == self.spec_is_separator_token(),
    {
        match self {
            ComponentValue::Token { is_separator, .. } => *is_separator,
            _ => false,
        }
    }

    /// Whether this is a parsed comma or semicolon delimiter.
    pub fn is_comma_or_semicolon_delimiter(&self) -> (r: bool)
        ensures
            r == self.spec_is_comma_or_semicolon_delimiter(),
    {
        match self {
            ComponentValue::Delimiter { kind, .. } => matches!(
                kind,
                DelimiterKind::Comma | DelimiterKind::Semicolon
            ),
            _ => false,
        }
    }

    /// Whether this is the nesting-declaration marker.
    pub fn is_sass_nesting(&self) -> (r: bool)
        ensures
            r == self.spec_is_sass_nesting(),
    {
        matches!(self, ComponentValue::SassNesting { .. })
    }

    /// Whether this is a raw comma or semicolon token.
    pub open spec fn spec_is_separator_token(&self) -> bool {
        match self {
            ComponentValue::Token { is_separator, .. } => *is_separator,
            _ => false,
        }
    }

    /// Whether this is a parsed comma or semicolon delimiter.
    pub open spec fn spec_is_comma_or_semicolon_delimiter(&self) -> bool {
        match self {
            ComponentValue::Delimiter { kind, .. } => *kind == DelimiterKind::Comma || *kind
                == DelimiterKind::Semicolon,
            _ => false,
        }
    }

    /// Whether this is the nesting-declaration marker.
    pub open spec fn spec_is_sass_nesting(&self) -> bool {
        self matches ComponentValue::SassNesting { .. }
    }
}

/// One property declaration.
pub struct Declaration {
    pub name: PropertyName,
    pub less_property_merge: Option<PropertyMerge>,
    pub colon_span: Span,
    pub value: Vec<ComponentValue>,
    pub important: Option<ImportantAnnotation>,
    pub span: Span,
}

/// One selector of a qualified rule, prebuilt.
pub struct Selector {
    pub doc: LayoutDoc,
    pub span: Span,
}

/// The braced (or, in indentation dialects, indented) body of a rule.
pub struct SimpleBlock {
    pub statements: Vec<Statement>,
    pub span: Span,
}

/// A comma-joined selector list plus its body block.
pub struct QualifiedRule {
    pub selectors: Vec<Selector>,
    pub block: SimpleBlock,
    pub span: Span,
}

/// An at-rule; its whole fragment is prebuilt, only the presence of a body
/// block matters to the terminator policy.
pub struct AtRule {
    pub doc: LayoutDoc,
    pub has_block: bool,
    pub span: Span,
}

/// A keyframe block; its fragment is prebuilt.
pub struct KeyframeBlock {
    pub doc: LayoutDoc,
    pub span: Span,
}

/// One statement of a stylesheet or block body.
pub enum Statement {
    AtRule(AtRule),
    Declaration(Declaration),
    KeyframeBlock(KeyframeBlock),
    QualifiedRule(QualifiedRule),
    /// A construct this formatter does not handle, with its location.
    Unsupported(Span),
}

impl Statement {
    /// The source range of this statement.
    pub fn span(&self) -> (r: Span)
        ensures
            r == self.spec_span(),
    {
        match self {
            Statement::AtRule(a) => a.span,
            Statement::Declaration(d) => d.span,
            Statement::KeyframeBlock(k) => k.span,
            Statement::QualifiedRule(q) => q.span,
            Statement::Unsupported(span) => *span,
        }
    }

    pub open spec fn spec_span(&self) -> Span {
        match self {
            Statement::AtRule(a) => a.span,
            Statement::Declaration(d) => d.span,
            Statement::KeyframeBlock(k) => k.span,
            Statement::QualifiedRule(q) => q.span,
            Statement::Unsupported(span) => *span,
        }
    }
}

/// A whole parsed stylesheet: top-level statements in source order.
pub struct Stylesheet {
    pub statements: Vec<Statement>,
    pub span: Span,
}

} // verus!
