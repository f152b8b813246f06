//! Turns the data model into a layout document: where comments are
//! re-inserted, when blank lines are preserved, when selector lists break,
//! when a value is kept verbatim versus reflowed, and when statement
//! terminators are emitted or suppressed.
use crate::ast::{
    Comment, CommentKind, ComponentValue, Declaration, ImportantAnnotation, PropertyName,
    QualifiedRule, Selector, SimpleBlock, Statement, Stylesheet,
};
use crate::config::{BlockSelectorLineBreak, Syntax};
use crate::ctx::{comments_in_range, Ctx};
use crate::doc::{
    append_docs, docs_view, push_doc, text_doc,
    LayoutDoc, LayoutDocV,
};
use crate::error::Error;
use crate::line_bounds::line_index;
use crate::Span;
use vstd::prelude::*;

verus! {

/// The fragment of one comment: its source text, verbatim.
pub open spec fn comment_doc(c: Comment) -> LayoutDocV {
    LayoutDocV::Text(c.text@)
}

/// Fragments of comments standing between two value components: each comment,
/// a block comment followed by a conditional break, a line comment not.
pub open spec fn value_comment_docs(cs: Seq<Comment>) -> Seq<LayoutDocV>
    decreases cs.len(),
{
    if cs.len() == 0 {
        Seq::empty()
    } else {
        value_comment_docs(cs.drop_last()) + seq![comment_doc(cs.last())] + (if cs.last().kind
            == CommentKind::Block {
            seq![LayoutDocV::SoftLine]
        } else {
            Seq::empty()
        })
    }
}

/// Fragments of comments standing before the first statement of a sequence:
/// each comment on a line of its own.
pub open spec fn leading_comment_docs(cs: Seq<Comment>) -> Seq<LayoutDocV>
    decreases cs.len(),
{
    if cs.len() == 0 {
        Seq::empty()
    } else {
        leading_comment_docs(cs.drop_last()) + seq![
            comment_doc(cs.last()),
            LayoutDocV::HardLine,
        ]
    }
}

/// Fragments of comments trailing a statement: each after one space, on the
/// statement's own line; the following break comes from the next statement
/// or from the end of the enclosing sequence.
pub open spec fn trailing_comment_docs(cs: Seq<Comment>) -> Seq<LayoutDocV>
    decreases cs.len(),
{
    if cs.len() == 0 {
        Seq::empty()
    } else {
        trailing_comment_docs(cs.drop_last()) + seq![
            LayoutDocV::Space,
            comment_doc(cs.last()),
        ]
    }
}

/// Whether a property name starts with the custom-property prefix `--`.
pub open spec fn is_custom_property_name(s: Seq<char>) -> bool {
    s.len() >= 2 && s[0] == '-' && s[1] == '-'
}

/// Whether a property name equals `filter`, ASCII case ignored.
pub open spec fn is_filter_name(s: Seq<char>) -> bool {
    s.len() == 6 && (s[0] == 'f' || s[0] == 'F') && (s[1] == 'i' || s[1] == 'I') && (s[2] == 'l'
        || s[2] == 'L') && (s[3] == 't' || s[3] == 'T') && (s[4] == 'e' || s[4] == 'E') && (s[5]
        == 'r' || s[5] == 'R')
}

/// Whether a declaration's values are kept verbatim (the opaque-value policy)
/// rather than reflowed: its literal name bears the custom-property prefix or
/// is `filter` in any ASCII case.
pub open spec fn spec_uses_opaque_policy(name: PropertyName) -> bool {
    match name {
        PropertyName::Literal { name } => is_custom_property_name(name@) || is_filter_name(name@),
        PropertyName::Interpolated { .. } => false,
    }
}

/// Decides the value-separation policy from the property name.
pub fn uses_opaque_policy(name: &PropertyName) -> (r: bool)
    ensures
        r == spec_uses_opaque_policy(*name),
{
    match name {
        PropertyName::Literal { name } => {
            let s = name.as_str();
            let n = s.unicode_len();
            if n >= 2 && s.get_char(0) == '-' && s.get_char(1) == '-' {
                true
            } else if n == 6 {
                let c0 = s.get_char(0);
                let c1 = s.get_char(1);
                let c2 = s.get_char(2);
                let c3 = s.get_char(3);
                let c4 = s.get_char(4);
                let c5 = s.get_char(5);
                (c0 == 'f' || c0 == 'F') && (c1 == 'i' || c1 == 'I') && (c2 == 'l' || c2 == 'L')
                    && (c3 == 't' || c3 == 'T') && (c4 == 'e' || c4 == 'E') && (c5 == 'r' || c5
                    == 'R')
            } else {
                false
            }
        },
        PropertyName::Interpolated { .. } => false,
    }
}

/// The break following value component `i` under the opaque-value policy:
/// after a comma or semicolon token, or where the source itself separated two
/// consecutive tokens.
pub open spec fn opaque_break(vals: Seq<ComponentValue>, i: int) -> Seq<LayoutDocV> {
    if vals[i].spec_is_separator_token() {
        seq![LayoutDocV::SoftLine]
    } else if i + 1 < vals.len() && vals[i].spec_span().end < vals[i + 1].spec_span().start {
        seq![LayoutDocV::SoftLine]
    } else {
        Seq::empty()
    }
}

/// The break following value component `i` under the structured-value policy:
/// after every node except when the next sibling is a comma or semicolon
/// delimiter, and not after the last.
pub open spec fn structured_break(vals: Seq<ComponentValue>, i: int) -> Seq<LayoutDocV> {
    if i + 1 < vals.len() && !vals[i + 1].spec_is_comma_or_semicolon_delimiter() {
        seq![LayoutDocV::SoftLine]
    } else {
        Seq::empty()
    }
}

/// Fragments of the value components from index `i` on: interleaved comments,
/// each component's fragment, and the policy's conditional breaks. `cursor`
/// is the source offset the previous component (or the colon) ended at.
pub open spec fn value_parts(
    vals: Seq<ComponentValue>,
    i: int,
    cursor: int,
    comments: Seq<Comment>,
    opaque: bool,
) -> Seq<LayoutDocV>
    decreases vals.len() - i,
{
    if i < 0 || i >= vals.len() {
        Seq::empty()
    } else {
        value_comment_docs(comments_in_range(comments, cursor, vals[i].spec_span().start as int))
            + seq![vals[i].spec_doc()@] + (if opaque {
            opaque_break(vals, i)
        } else {
            structured_break(vals, i)
        }) + value_parts(vals, i + 1, vals[i].spec_span().end as int, comments, opaque)
    }
}

/// The trailing importance marker: a conditional break, then `!important`.
pub open spec fn important_tail(d: Declaration) -> Seq<LayoutDocV> {
    match d.important {
        Some(_) => seq![LayoutDocV::SoftLine, LayoutDocV::Text("!important"@)],
        None => Seq::empty(),
    }
}

/// The whole grouped value region of a declaration.
pub open spec fn decl_value_docs(d: Declaration, ctx: Ctx) -> Seq<LayoutDocV> {
    value_parts(
        d.value@,
        0,
        d.colon_span.end as int,
        ctx.comments@,
        spec_uses_opaque_policy(d.name),
    ) + important_tail(d)
}

/// The fragment of a property name.
pub open spec fn name_doc(n: PropertyName) -> LayoutDocV {
    match n {
        PropertyName::Literal { name } => LayoutDocV::Text(name@),
        PropertyName::Interpolated { doc, .. } => doc@,
    }
}

/// The fragment of a vendor property-merge annotation, if present.
pub open spec fn merge_docs(d: Declaration) -> Seq<LayoutDocV> {
    match d.less_property_merge {
        Some(m) => seq![m.doc@],
        None => Seq::empty(),
    }
}

/// The fragment of one declaration: name, optional merge annotation, a
/// literal `": "`, then the values as one group nested one indentation unit.
pub open spec fn decl_doc(d: Declaration, ctx: Ctx) -> LayoutDocV {
    LayoutDocV::List(
        seq![name_doc(d.name)] + merge_docs(d) + seq![
            LayoutDocV::Text(": "@),
            LayoutDocV::Nest(
                ctx.indent_width as nat,
                seq![LayoutDocV::Group(decl_value_docs(d, ctx))],
            ),
        ],
    )
}

/// Builds the fragments of comments standing between two value components.
fn value_comment_frags(cs: &Vec<Comment>) -> (r: Vec<LayoutDoc>)
    ensures
        docs_view(r@) == value_comment_docs(cs@),
{
    let n = cs.len();
    let mut r: Vec<LayoutDoc> = Vec::new();
    let mut i: usize = 0;
    while i < n
        invariant
            n == cs@.len(),
            i <= n,
            docs_view(r@) == value_comment_docs(cs@.take(i as int)),
        decreases n - i,
    {
        proof {
            assert(cs@.take(i + 1).drop_last() =~= cs@.take(i as int));
        }
        push_doc(&mut r, LayoutDoc::Text(cs[i].text.clone()));
        if matches!(cs[i].kind, CommentKind::Block) {
            push_doc(&mut r, LayoutDoc::SoftLine);
        }
        proof {
            assert(docs_view(r@) =~= value_comment_docs(cs@.take(i + 1)));
        }
        i = i + 1;
    }
    proof {
        assert(cs@.take(n as int) =~= cs@);
    }
    r
}

impl ImportantAnnotation {
    /// The fragment of the importance marker: the literal `!important`.
    pub fn doc(&self, _ctx: &Ctx) -> (r: LayoutDoc)
        ensures
            r@ == LayoutDocV::Text("!important"@),
    {
        text_doc("!important")
    }
}

impl Declaration {
    /// The fragment of this declaration; see `decl_doc` for its exact shape.
    pub fn doc(&self, ctx: &Ctx) -> (r: LayoutDoc)
        ensures
            r@ == decl_doc(*self, *ctx),
    {
        let mut docs: Vec<LayoutDoc> = Vec::new();
        match &self.name {
            PropertyName::Literal { name } => push_doc(&mut docs, LayoutDoc::Text(name.clone())),
            PropertyName::Interpolated { doc, .. } => push_doc(&mut docs, doc.duplicate()),
        }
        if let Some(merge) = &self.less_property_merge {
            push_doc(&mut docs, merge.doc.duplicate());
        }
        push_doc(&mut docs, text_doc(": "));

        let opaque = uses_opaque_policy(&self.name);
        let ghost c0: int = self.colon_span.end as int;
        let ghost vals = self.value@;
        let ghost cms = ctx.comments@;
        let mut values: Vec<LayoutDoc> = Vec::new();
        let mut cursor: usize = self.colon_span.end;
        let n = self.value.len();
        let mut i: usize = 0;
        while i < n
            invariant
                n == vals.len(),
                i <= n,
                vals == self.value@,
                cms == ctx.comments@,
                opaque == spec_uses_opaque_policy(self.name),
                value_parts(vals, 0, c0, cms, opaque) == docs_view(values@) + value_parts(
                    vals,
                    i as int,
                    cursor as int,
                    cms,
                    opaque,
                ),
            decreases n - i,
        {
            let ghost values_at_entry = values@;
            let v = &self.value[i];
            let span = v.span();
            let cs = ctx.get_comments_between(cursor, span.start);
            append_docs(&mut values, value_comment_frags(&cs));
            push_doc(&mut values, v.doc_ref().duplicate());
            if opaque {
                if v.is_separator_token() {
                    push_doc(&mut values, LayoutDoc::SoftLine);
                } else if i + 1 < n && span.end < self.value[i + 1].span().start {
                    push_doc(&mut values, LayoutDoc::SoftLine);
                }
            } else {
                if i + 1 < n && !self.value[i + 1].is_comma_or_semicolon_delimiter() {
                    push_doc(&mut values, LayoutDoc::SoftLine);
                }
            }
            proof {
                let brk = if opaque {
                    opaque_break(vals, i as int)
                } else {
                    structured_break(vals, i as int)
                };
                assert(docs_view(values@) =~= docs_view(values_at_entry) + (value_comment_docs(
                    comments_in_range(cms, cursor as int, span.start as int),
                ) + seq![vals[i as int].spec_doc()@] + brk));
                assert(value_parts(vals, i as int, cursor as int, cms, opaque)
                    == (value_comment_docs(
                    comments_in_range(cms, cursor as int, span.start as int),
                ) + seq![vals[i as int].spec_doc()@] + brk) + value_parts(
                    vals,
                    i + 1,
                    span.end as int,
                    cms,
                    opaque,
                ));
                assert(docs_view(values@) + value_parts(vals, i + 1, span.end as int, cms, opaque)
                    =~= docs_view(values_at_entry) + value_parts(
                    vals,
                    i as int,
                    cursor as int,
                    cms,
                    opaque,
                ));
            }
            cursor = span.end;
            i = i + 1;
        }
        if let Some(important) = &self.important {
            push_doc(&mut values, LayoutDoc::SoftLine);
            push_doc(&mut values, important.doc(ctx));
        }
        proof {
            assert(docs_view(values@) =~= decl_value_docs(*self, *ctx));
        }
        let group = LayoutDoc::Group(values);
        let mut nested: Vec<LayoutDoc> = Vec::new();
        push_doc(&mut nested, group);
        push_doc(&mut docs, LayoutDoc::Nest(ctx.indent_width, nested));
        proof {
            assert(docs_view(docs@) =~= seq![name_doc(self.name)] + merge_docs(*self) + seq![
                LayoutDocV::Text(": "@),
                LayoutDocV::Nest(
                    ctx.indent_width as nat,
                    seq![LayoutDocV::Group(decl_value_docs(*self, *ctx))],
                ),
            ]);
        }
        LayoutDoc::List(docs)
    }
}

/// Fragments of comments standing alone in an otherwise empty block: each on
/// a line of its own.
pub open spec fn standalone_comment_docs(cs: Seq<Comment>) -> Seq<LayoutDocV>
    decreases cs.len(),
{
    if cs.len() == 0 {
        Seq::empty()
    } else {
        standalone_comment_docs(cs.drop_last()) + seq![
            LayoutDocV::HardLine,
            comment_doc(cs.last()),
        ]
    }
}

/// The break standing after each comma of a selector list, by policy.
pub open spec fn policy_break(policy: BlockSelectorLineBreak) -> LayoutDocV {
    match policy {
        BlockSelectorLineBreak::Always => LayoutDocV::HardLine,
        BlockSelectorLineBreak::Consistent => LayoutDocV::LineOrSpace,
        BlockSelectorLineBreak::Wrap => LayoutDocV::SoftLine,
    }
}

/// The comma-joined selector fragments from index `i` on: each selector,
/// then, between selectors, a literal comma and the policy's break.
pub open spec fn selector_parts(
    sels: Seq<Selector>,
    i: int,
    policy: BlockSelectorLineBreak,
) -> Seq<LayoutDocV>
    decreases sels.len() - i,
{
    if i < 0 || i >= sels.len() {
        Seq::empty()
    } else {
        seq![sels[i].doc@] + (if i + 1 < sels.len() {
            seq![LayoutDocV::Text(","@), policy_break(policy)]
        } else {
            Seq::empty()
        }) + selector_parts(sels, i + 1, policy)
    }
}

/// A statement fragment with the literal `;` terminator appended.
pub open spec fn with_terminator(inner: LayoutDocV) -> LayoutDocV {
    LayoutDocV::List(seq![inner, LayoutDocV::Text(";"@)])
}

/// Whether the dialect's terminator policy appends `;` after this statement:
/// never in the indentation-based dialect; otherwise after a brace-less
/// at-rule, and after a declaration unless its last component value is the
/// nesting-declaration marker.
pub open spec fn spec_needs_terminator(s: Statement, syntax: Syntax) -> bool {
    syntax != Syntax::Sass && match s {
        Statement::AtRule(a) => !a.has_block,
        Statement::Declaration(d) => !(d.value@.len() > 0
            && d.value@.last().spec_is_sass_nesting()),
        _ => false,
    }
}

/// The offset one below `n`, for looking up the line of a span's last byte.
pub open spec fn sub1(n: usize) -> int {
    if n > 0 {
        n - 1
    } else {
        0
    }
}

/// Whether the source gap between the end of one statement and the start of
/// the next spans more than one source line, that is, at least one blank
/// line stood between them.
pub open spec fn spec_away(ctx: Ctx, prev_end: usize, next_start: usize) -> bool {
    line_index(ctx.line_bounds.bounds(), next_start as int) - line_index(
        ctx.line_bounds.bounds(),
        sub1(prev_end),
    ) > 1
}

/// The upper bound of the comment query range after statement `i`: the next
/// statement's start, or the enclosing construct's end for the last one.
pub open spec fn stmt_hi(ss: Seq<Statement>, i: int, limit: int) -> int {
    if i + 1 < ss.len() {
        ss[i + 1].spec_span().start as int
    } else {
        limit
    }
}

/// One blank line between statements `i` and `i + 1` where the source had
/// one or more; never more than one.
pub open spec fn blank_sep(ss: Seq<Statement>, i: int, ctx: Ctx) -> Seq<LayoutDocV> {
    if i + 1 < ss.len() && spec_away(ctx, ss[i].spec_span().end, ss[i + 1].spec_span().start) {
        seq![LayoutDocV::EmptyLine]
    } else {
        Seq::empty()
    }
}

/// Prepends fragments to a pending interior, passing a failure through.
pub open spec fn rcat(
    prefix: Seq<LayoutDocV>,
    rest: Result<Seq<LayoutDocV>, Span>,
) -> Result<Seq<LayoutDocV>, Span> {
    match rest {
        Ok(s) => Ok(prefix + s),
        Err(sp) => Err(sp),
    }
}

proof fn lemma_rcat_assoc(a: Seq<LayoutDocV>, b: Seq<LayoutDocV>, c: Result<Seq<LayoutDocV>, Span>)
    ensures
        rcat(a, rcat(b, c)) == rcat(a + b, c),
{
    match c {
        Ok(s) => {
            assert(a + (b + s) =~= (a + b) + s);
        },
        Err(_) => {
        },
    }
}

/// How a formatting result is read in contracts: the fragment's view on
/// success, the offending source range on failure.
pub open spec fn doc_result_view(r: Result<LayoutDoc, Error>) -> Result<LayoutDocV, Span> {
    match r {
        Ok(d) => Ok(d@),
        Err(Error::UnsupportedStatement { span }) => Err(span),
    }
}

/// The interior fragments of a block body from statement `i` on: an
/// unconditional break before each statement, comments standing before the
/// first statement on lines of their own, each statement's fragment, its
/// trailing comments, and at most one preserved blank line.
pub open spec fn block_stmts_parts(
    ss: Seq<Statement>,
    i: int,
    ctx: Ctx,
    block_span: Span,
) -> Result<Seq<LayoutDocV>, Span>
    decreases ss, 0int, ss.len() - i,
{
    if i < 0 || i >= ss.len() {
        Ok(Seq::empty())
    } else {
        match stmt_doc(ss[i], ctx) {
            Err(sp) => Err(sp),
            Ok(inner) => rcat(
                seq![LayoutDocV::HardLine] + (if i == 0 {
                    leading_comment_docs(
                        comments_in_range(
                            ctx.comments@,
                            block_span.start as int,
                            ss[0].spec_span().start as int,
                        ),
                    )
                } else {
                    Seq::empty()
                }) + seq![inner] + trailing_comment_docs(
                    comments_in_range(
                        ctx.comments@,
                        ss[i].spec_span().end as int,
                        stmt_hi(ss, i, block_span.end as int),
                    ),
                ) + blank_sep(ss, i, ctx),
                block_stmts_parts(ss, i + 1, ctx, block_span),
            ),
        }
    }
}

/// The fragment of a block: a literal `{`, the interior indented one unit,
/// an unconditional break, and a literal `}`; the indentation-based dialect
/// omits both braces. An empty block keeps its comments, each on its own
/// indented line.
pub open spec fn block_doc(b: SimpleBlock, ctx: Ctx) -> Result<LayoutDocV, Span>
    decreases b, 1int, 0int,
{
    let interior = if b.statements@.len() == 0 {
        Ok(
            standalone_comment_docs(
                comments_in_range(ctx.comments@, b.span.start as int, b.span.end as int),
            ),
        )
    } else {
        block_stmts_parts(b.statements@, 0, ctx, b.span)
    };
    match interior {
        Err(sp) => Err(sp),
        Ok(parts) => Ok(
            LayoutDocV::List(
                (if ctx.syntax == Syntax::Sass {
                    Seq::empty()
                } else {
                    seq![LayoutDocV::Text("{"@)]
                }) + seq![
                    LayoutDocV::Nest(ctx.indent_width as nat, parts),
                    LayoutDocV::HardLine,
                ] + (if ctx.syntax == Syntax::Sass {
                    Seq::empty()
                } else {
                    seq![LayoutDocV::Text("}"@)]
                }),
            ),
        ),
    }
}

/// The fragment of a qualified rule: the selector list as one group, a
/// space, then the block's fragment outside the group.
pub open spec fn qr_doc(q: QualifiedRule, ctx: Ctx) -> Result<LayoutDocV, Span>
    decreases q, 1int, 1int,
{
    match block_doc(q.block, ctx) {
        Err(sp) => Err(sp),
        Ok(b) => Ok(
            LayoutDocV::List(
                seq![
                    LayoutDocV::Group(
                        selector_parts(q.selectors@, 0, ctx.options.block_selector_linebreak),
                    ),
                    LayoutDocV::Space,
                    b,
                ],
            ),
        ),
    }
}

/// The fragment of one statement, routed by kind, with the dialect's
/// terminator policy applied. An unsupported kind is the formatting failure,
/// carrying its source range.
pub open spec fn stmt_doc(s: Statement, ctx: Ctx) -> Result<LayoutDocV, Span>
    decreases s, 2int, 0int,
{
    match s {
        Statement::Unsupported(sp) => Err(sp),
        Statement::QualifiedRule(q) => qr_doc(q, ctx),
        Statement::KeyframeBlock(k) => Ok(k.doc@),
        Statement::AtRule(a) => Ok(
            if spec_needs_terminator(s, ctx.syntax) {
                with_terminator(a.doc@)
            } else {
                a.doc@
            },
        ),
        Statement::Declaration(d) => Ok(
            if spec_needs_terminator(s, ctx.syntax) {
                with_terminator(decl_doc(d, ctx))
            } else {
                decl_doc(d, ctx)
            },
        ),
    }
}

/// The separators after top-level statement `i`: an unconditional break and
/// at most one preserved blank line between statements; after the last, one
/// unconditional break unless the dialect is indentation-based.
pub open spec fn sheet_sep(ss: Seq<Statement>, i: int, ctx: Ctx) -> Seq<LayoutDocV> {
    if i + 1 < ss.len() {
        seq![LayoutDocV::HardLine] + blank_sep(ss, i, ctx)
    } else if ctx.syntax != Syntax::Sass {
        seq![LayoutDocV::HardLine]
    } else {
        Seq::empty()
    }
}

/// The top-level fragments of a stylesheet from statement `i` on.
pub open spec fn sheet_stmts_parts(
    ss: Seq<Statement>,
    i: int,
    ctx: Ctx,
    sheet_span: Span,
) -> Result<Seq<LayoutDocV>, Span>
    decreases ss, 0int, ss.len() - i,
{
    if i < 0 || i >= ss.len() {
        Ok(Seq::empty())
    } else {
        match stmt_doc(ss[i], ctx) {
            Err(sp) => Err(sp),
            Ok(inner) => rcat(
                (if i == 0 {
                    leading_comment_docs(
                        comments_in_range(
                            ctx.comments@,
                            sheet_span.start as int,
                            ss[0].spec_span().start as int,
                        ),
                    )
                } else {
                    Seq::empty()
                }) + seq![inner] + trailing_comment_docs(
                    comments_in_range(
                        ctx.comments@,
                        ss[i].spec_span().end as int,
                        stmt_hi(ss, i, sheet_span.end as int),
                    ),
                ) + sheet_sep(ss, i, ctx),
                sheet_stmts_parts(ss, i + 1, ctx, sheet_span),
            ),
        }
    }
}

/// The fragment of a whole stylesheet. A stylesheet of comments alone keeps
/// them, each on a line of its own.
pub open spec fn stylesheet_doc(s: Stylesheet, ctx: Ctx) -> Result<LayoutDocV, Span> {
    if s.statements@.len() == 0 {
        Ok(
            LayoutDocV::List(
                leading_comment_docs(
                    comments_in_range(ctx.comments@, s.span.start as int, s.span.end as int),
                ),
            ),
        )
    } else {
        match sheet_stmts_parts(s.statements@, 0, ctx, s.span) {
            Err(sp) => Err(sp),
            Ok(parts) => Ok(LayoutDocV::List(parts)),
        }
    }
}

/// Builds the fragments of comments leading a statement sequence.
fn leading_comment_frags(cs: &Vec<Comment>) -> (r: Vec<LayoutDoc>)
    ensures
        docs_view(r@) == leading_comment_docs(cs@),
{
    let n = cs.len();
    let mut r: Vec<LayoutDoc> = Vec::new();
    let mut i: usize = 0;
    while i < n
        invariant
            n == cs@.len(),
            i <= n,
            docs_view(r@) == leading_comment_docs(cs@.take(i as int)),
        decreases n - i,
    {
        proof {
            assert(cs@.take(i + 1).drop_last() =~= cs@.take(i as int));
        }
        push_doc(&mut r, LayoutDoc::Text(cs[i].text.clone()));
        push_doc(&mut r, LayoutDoc::HardLine);
        proof {
            assert(docs_view(r@) =~= leading_comment_docs(cs@.take(i + 1)));
        }
        i = i + 1;
    }
    proof {
        assert(cs@.take(n as int) =~= cs@);
    }
    r
}

/// Builds the fragments of comments trailing one statement.
fn trailing_comment_frags(cs: &Vec<Comment>) -> (r: Vec<LayoutDoc>)
    ensures
        docs_view(r@) == trailing_comment_docs(cs@),
{
    let n = cs.len();
    let mut r: Vec<LayoutDoc> = Vec::new();
    let mut i: usize = 0;
    while i < n
        invariant
            n == cs@.len(),
            i <= n,
            docs_view(r@) == trailing_comment_docs(cs@.take(i as int)),
        decreases n - i,
    {
        proof {
            assert(cs@.take(i + 1).drop_last() =~= cs@.take(i as int));
        }
        push_doc(&mut r, LayoutDoc::Space);
        push_doc(&mut r, LayoutDoc::Text(cs[i].text.clone()));
        proof {
            assert(docs_view(r@) =~= trailing_comment_docs(cs@.take(i + 1)));
        }
        i = i + 1;
    }
    proof {
        assert(cs@.take(n as int) =~= cs@);
    }
    r
}

/// Builds the fragments of comments standing alone in an empty block.
fn standalone_comment_frags(cs: &Vec<Comment>) -> (r: Vec<LayoutDoc>)
    ensures
        docs_view(r@) == standalone_comment_docs(cs@),
{
    let n = cs.len();
    let mut r: Vec<LayoutDoc> = Vec::new();
    let mut i: usize = 0;
    while i < n
        invariant
            n == cs@.len(),
            i <= n,
            docs_view(r@) == standalone_comment_docs(cs@.take(i as int)),
        decreases n - i,
    {
        proof {
            assert(cs@.take(i + 1).drop_last() =~= cs@.take(i as int));
        }
        push_doc(&mut r, LayoutDoc::HardLine);
        push_doc(&mut r, LayoutDoc::Text(cs[i].text.clone()));
        proof {
            assert(docs_view(r@) =~= standalone_comment_docs(cs@.take(i + 1)));
        }
        i = i + 1;
    }
    proof {
        assert(cs@.take(n as int) =~= cs@);
    }
    r
}

/// Whether the gap from a statement's last byte to the next start spans more
/// than one source line.
fn stmt_gap_is_blank(ctx: &Ctx, prev_end: usize, next_start: usize) -> (r: bool)
    ensures
        r == spec_away(*ctx, prev_end, next_start),
{
    let p: usize = if prev_end > 0 {
        prev_end - 1
    } else {
        0
    };
    ctx.line_bounds.is_away_more_than_one_line(p, next_start)
}

impl QualifiedRule {
    /// The fragment of this qualified rule; see `qr_doc` for its exact shape.
    pub fn doc(&self, ctx: &Ctx) -> (r: Result<LayoutDoc, Error>)
        ensures
            doc_result_view(r) == qr_doc(*self, *ctx),
        decreases self, 1int, 1int,
    {
        let block = match self.block.doc(ctx) {
            Ok(b) => b,
            Err(e) => {
                return Err(e);
            },
        };
        let ghost sels = self.selectors@;
        let ghost policy = ctx.options.block_selector_linebreak;
        let mut parts: Vec<LayoutDoc> = Vec::new();
        let n = self.selectors.len();
        let mut i: usize = 0;
        while i < n
            invariant
                n == sels.len(),
                i <= n,
                sels == self.selectors@,
                policy == ctx.options.block_selector_linebreak,
                selector_parts(sels, 0, policy) == docs_view(parts@) + selector_parts(
                    sels,
                    i as int,
                    policy,
                ),
            decreases n - i,
        {
            let ghost entry = parts@;
            push_doc(&mut parts, self.selectors[i].doc.duplicate());
            if i + 1 < n {
                push_doc(&mut parts, text_doc(","));
                match ctx.options.block_selector_linebreak {
                    BlockSelectorLineBreak::Always => push_doc(&mut parts, LayoutDoc::HardLine),
                    BlockSelectorLineBreak::Consistent => push_doc(
                        &mut parts,
                        LayoutDoc::LineOrSpace,
                    ),
                    BlockSelectorLineBreak::Wrap => push_doc(&mut parts, LayoutDoc::SoftLine),
                }
            }
            proof {
                let sep: Seq<LayoutDocV> = if i + 1 < n {
                    seq![LayoutDocV::Text(","@), policy_break(policy)]
                } else {
                    Seq::empty()
                };
                assert(docs_view(parts@) =~= docs_view(entry) + (seq![sels[i as int].doc@] + sep));
                assert(selector_parts(sels, i as int, policy) == (seq![sels[i as int].doc@] + sep)
                    + selector_parts(sels, i + 1, policy));
                assert(docs_view(parts@) + selector_parts(sels, i + 1, policy) =~= docs_view(entry)
                    + selector_parts(sels, i as int, policy));
            }
            i = i + 1;
        }
        proof {
            assert(selector_parts(sels, n as int, policy) =~= Seq::<LayoutDocV>::empty());
            assert(docs_view(parts@) =~= selector_parts(sels, 0, policy));
        }
        let mut docs: Vec<LayoutDoc> = Vec::new();
        push_doc(&mut docs, LayoutDoc::Group(parts));
        push_doc(&mut docs, LayoutDoc::Space);
        push_doc(&mut docs, block);
        proof {
            assert(docs_view(docs@) =~= seq![
                LayoutDocV::Group(selector_parts(sels, 0, policy)),
                LayoutDocV::Space,
                block@,
            ]);
        }
        Ok(LayoutDoc::List(docs))
    }
}

impl SimpleBlock {
    /// The fragment of this block body; see `block_doc` for its exact shape.
    pub fn doc(&self, ctx: &Ctx) -> (r: Result<LayoutDoc, Error>)
        ensures
            doc_result_view(r) == block_doc(*self, *ctx),
        decreases self, 1int, 0int,
    {
        let is_sass = matches!(ctx.syntax, Syntax::Sass);
        let ghost ss = self.statements@;
        let n = self.statements.len();
        let mut parts: Vec<LayoutDoc> = Vec::new();
        if n == 0 {
            let cs = ctx.get_comments_between(self.span.start, self.span.end);
            parts = standalone_comment_frags(&cs);
        } else {
            let mut i: usize = 0;
            while i < n
                invariant
                    n == ss.len(),
                    n == self.statements@.len(),
                    i <= n,
                    ss == self.statements@,
                    block_stmts_parts(ss, 0, *ctx, self.span) == rcat(
                        docs_view(parts@),
                        block_stmts_parts(ss, i as int, *ctx, self.span),
                    ),
                decreases n - i,
            {
                let ghost entry = parts@;
                push_doc(&mut parts, LayoutDoc::HardLine);
                if i == 0 {
                    let cs = ctx.get_comments_between(self.span.start, self.statements[0].span().start);
                    append_docs(&mut parts, leading_comment_frags(&cs));
                }
                let inner = match self.statements[i].doc(ctx) {
                    Ok(d) => d,
                    Err(e) => {
                        proof {
                            let Error::UnsupportedStatement { span: sp } = e;
                            assert(block_stmts_parts(ss, i as int, *ctx, self.span) == Err::<
                                Seq<LayoutDocV>,
                                Span,
                            >(sp));
                        }
                        return Err(e);
                    },
                };
                push_doc(&mut parts, inner);
                let hi = if i + 1 < n {
                    self.statements[i + 1].span().start
                } else {
                    self.span.end
                };
                let cs = ctx.get_comments_between(self.statements[i].span().end, hi);
                append_docs(&mut parts, trailing_comment_frags(&cs));
                if i + 1 < n && stmt_gap_is_blank(
                    ctx,
                    self.statements[i].span().end,
                    self.statements[i + 1].span().start,
                ) {
                    push_doc(&mut parts, LayoutDoc::EmptyLine);
                }
                proof {
                    let chunk = seq![LayoutDocV::HardLine] + (if i == 0 {
                        leading_comment_docs(
                            comments_in_range(
                                ctx.comments@,
                                self.span.start as int,
                                ss[0].spec_span().start as int,
                            ),
                        )
                    } else {
                        Seq::empty()
                    }) + seq![inner@] + trailing_comment_docs(
                        comments_in_range(
                            ctx.comments@,
                            ss[i as int].spec_span().end as int,
                            stmt_hi(ss, i as int, self.span.end as int),
                        ),
                    ) + blank_sep(ss, i as int, *ctx);
                    assert(docs_view(parts@) =~= docs_view(entry) + chunk);
                    assert(block_stmts_parts(ss, i as int, *ctx, self.span) == rcat(
                        chunk,
                        block_stmts_parts(ss, i + 1, *ctx, self.span),
                    ));
                    lemma_rcat_assoc(
                        docs_view(entry),
                        chunk,
                        block_stmts_parts(ss, i + 1, *ctx, self.span),
                    );
                }
                i = i + 1;
            }
            proof {
                assert(block_stmts_parts(ss, n as int, *ctx, self.span) == Ok::<
                    Seq<LayoutDocV>,
                    Span,
                >(Seq::empty()));
                assert(docs_view(parts@) + Seq::<LayoutDocV>::empty() =~= docs_view(parts@));
            }
        }
        let mut docs: Vec<LayoutDoc> = Vec::new();
        if !is_sass {
            push_doc(&mut docs, text_doc("{"));
        }
        let ghost interior = docs_view(parts@);
        push_doc(&mut docs, LayoutDoc::Nest(ctx.indent_width, parts));
        push_doc(&mut docs, LayoutDoc::HardLine);
        if !is_sass {
            push_doc(&mut docs, text_doc("}"));
        }
        proof {
            if is_sass {
                assert(docs_view(docs@) =~= Seq::<LayoutDocV>::empty() + seq![
                    LayoutDocV::Nest(ctx.indent_width as nat, interior),
                    LayoutDocV::HardLine,
                ] + Seq::<LayoutDocV>::empty());
            } else {
                assert(docs_view(docs@) =~= seq![LayoutDocV::Text("{"@)] + seq![
                    LayoutDocV::Nest(ctx.indent_width as nat, interior),
                    LayoutDocV::HardLine,
                ] + seq![LayoutDocV::Text("}"@)]);
            }
        }
        Ok(LayoutDoc::List(docs))
    }
}

impl Statement {
    /// The fragment of this statement; see `stmt_doc` for its exact shape.
    pub fn doc(&self, ctx: &Ctx) -> (r: Result<LayoutDoc, Error>)
        ensures
            doc_result_view(r) == stmt_doc(*self, *ctx),
        decreases self, 2int, 0int,
    {
        let is_sass = matches!(ctx.syntax, Syntax::Sass);
        match self {
            Statement::Unsupported(sp) => Err(Error::UnsupportedStatement { span: *sp }),
            Statement::QualifiedRule(q) => q.doc(ctx),
            Statement::KeyframeBlock(k) => Ok(k.doc.duplicate()),
            Statement::AtRule(a) => {
                let base = a.doc.duplicate();
                if !is_sass && !a.has_block {
                    let mut docs: Vec<LayoutDoc> = Vec::new();
                    push_doc(&mut docs, base);
                    push_doc(&mut docs, text_doc(";"));
                    proof {
                        assert(docs_view(docs@) =~= seq![a.doc@, LayoutDocV::Text(";"@)]);
                    }
                    Ok(LayoutDoc::List(docs))
                } else {
                    Ok(base)
                }
            },
            Statement::Declaration(d) => {
                let base = d.doc(ctx);
                let self_terminating = if d.value.len() > 0 {
                    d.value[d.value.len() - 1].is_sass_nesting()
                } else {
                    false
                };
                if !is_sass && !self_terminating {
                    let mut docs: Vec<LayoutDoc> = Vec::new();
                    push_doc(&mut docs, base);
                    push_doc(&mut docs, text_doc(";"));
                    proof {
                        assert(docs_view(docs@) =~= seq![
                            decl_doc(*d, *ctx),
                            LayoutDocV::Text(";"@),
                        ]);
                    }
                    Ok(LayoutDoc::List(docs))
                } else {
                    Ok(base)
                }
            },
        }
    }
}

impl Stylesheet {
    /// The fragment of this whole stylesheet; see `stylesheet_doc` for its
    /// exact shape.
    pub fn doc(&self, ctx: &Ctx) -> (r: Result<LayoutDoc, Error>)
        ensures
            doc_result_view(r) == stylesheet_doc(*self, *ctx),
    {
        let ghost ss = self.statements@;
        let n = self.statements.len();
        let mut parts: Vec<LayoutDoc> = Vec::new();
        if n == 0 {
            let cs = ctx.get_comments_between(self.span.start, self.span.end);
            parts = leading_comment_frags(&cs);
            return Ok(LayoutDoc::List(parts));
        }
        let mut i: usize = 0;
        while i < n
            invariant
                n == ss.len(),
                n == self.statements@.len(),
                n > 0,
                i <= n,
                ss == self.statements@,
                sheet_stmts_parts(ss, 0, *ctx, self.span) == rcat(
                    docs_view(parts@),
                    sheet_stmts_parts(ss, i as int, *ctx, self.span),
                ),
            decreases n - i,
        {
            let ghost entry = parts@;
            if i == 0 {
                let cs = ctx.get_comments_between(self.span.start, self.statements[0].span().start);
                append_docs(&mut parts, leading_comment_frags(&cs));
            }
            let inner = match self.statements[i].doc(ctx) {
                Ok(d) => d,
                Err(e) => {
                    proof {
                        let Error::UnsupportedStatement { span: sp } = e;
                        assert(sheet_stmts_parts(ss, i as int, *ctx, self.span) == Err::<
                            Seq<LayoutDocV>,
                            Span,
                        >(sp));
                    }
                    return Err(e);
                },
            };
            push_doc(&mut parts, inner);
            let hi = if i + 1 < n {
                self.statements[i + 1].span().start
            } else {
                self.span.end
            };
            let cs = ctx.get_comments_between(self.statements[i].span().end, hi);
            append_docs(&mut parts, trailing_comment_frags(&cs));
            if i + 1 < n {
                push_doc(&mut parts, LayoutDoc::HardLine);
                if stmt_gap_is_blank(
                    ctx,
                    self.statements[i].span().end,
                    self.statements[i + 1].span().start,
                ) {
                    push_doc(&mut parts, LayoutDoc::EmptyLine);
                }
            } else {
                if !matches!(ctx.syntax, Syntax::Sass) {
                    push_doc(&mut parts, LayoutDoc::HardLine);
                }
            }
            proof {
                let chunk = (if i == 0 {
                    leading_comment_docs(
                        comments_in_range(
                            ctx.comments@,
                            self.span.start as int,
                            ss[0].spec_span().start as int,
                        ),
                    )
                } else {
                    Seq::empty()
                }) + seq![inner@] + trailing_comment_docs(
                    comments_in_range(
                        ctx.comments@,
                        ss[i as int].spec_span().end as int,
                        stmt_hi(ss, i as int, self.span.end as int),
                    ),
                ) + sheet_sep(ss, i as int, *ctx);
                assert(docs_view(parts@) =~= docs_view(entry) + chunk);
                assert(sheet_stmts_parts(ss, i as int, *ctx, self.span) == rcat(
                    chunk,
                    sheet_stmts_parts(ss, i + 1, *ctx, self.span),
                ));
                lemma_rcat_assoc(
                    docs_view(entry),
                    chunk,
                    sheet_stmts_parts(ss, i + 1, *ctx, self.span),
                );
            }
            i = i + 1;
        }
        proof {
            assert(sheet_stmts_parts(ss, n as int, *ctx, self.span) == Ok::<
                Seq<LayoutDocV>,
                Span,
            >(Seq::empty()));
            assert(docs_view(parts@) + Seq::<LayoutDocV>::empty() =~= docs_view(parts@));
        }
        Ok(LayoutDoc::List(parts))
    }
}

} // verus!
