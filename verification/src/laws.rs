//! The guarantees this formatter is built around, stated and proved over the
//! specification functions that the formatters' own contracts use.
use crate::ast::{Comment, ComponentValue, Selector, Statement};
use crate::config::{BlockSelectorLineBreak, Syntax};
use crate::ctx::{comments_in_range, Ctx};
use crate::doc::LayoutDocV;
use crate::doc_gen::{
    blank_sep, decl_doc, policy_break, selector_parts, spec_away, spec_needs_terminator, stmt_doc, stmt_hi,
    structured_break, sub1, with_terminator,
};
use crate::line_bounds::line_index;
use vstd::prelude::*;

verus! {

/// The comment interleaver answers a query with exactly the comments whose
/// spans fall entirely inside the queried range, in their original order,
/// none duplicated or dropped.
pub proof fn lemma_comment_query_is_filter(cs: Seq<Comment>, lo: int, hi: int)
    ensures
        comments_in_range(cs, lo, hi) == cs.filter(
            |c: Comment| lo <= c.span.start && c.span.end <= hi,
        ),
    decreases cs.len(),
{
    reveal(Seq::filter);
    if cs.len() > 0 {
        lemma_comment_query_is_filter(cs.drop_last(), lo, hi);
        let pred = |c: Comment| lo <= c.span.start && c.span.end <= hi;
        if pred(cs.last()) {
            assert(comments_in_range(cs.drop_last(), lo, hi) + seq![cs.last()] =~= cs.drop_last()
                .filter(pred).push(cs.last()));
        } else {
            assert(comments_in_range(cs.drop_last(), lo, hi) + Seq::<Comment>::empty()
                =~= cs.drop_last().filter(pred));
        }
    }
}

/// A well-formed comment list: every span is nonempty, and comments stand in
/// ascending source order without overlapping.
pub open spec fn comments_well_formed(cs: Seq<Comment>) -> bool {
    (forall|i: int| 0 <= i < cs.len() ==> (#[trigger] cs[i].span).start < cs[i].span.end)
        && (forall|i: int, j: int|
        0 <= i < j < cs.len() ==> (#[trigger] cs[i].span).end <= (#[trigger] cs[j].span).start)
}

/// No comment of a list that lies wholly before `mid` is answered for a
/// query starting at `mid`.
proof fn lemma_comment_query_empty(cs: Seq<Comment>, mid: int, hi: int)
    requires
        forall|i: int| 0 <= i < cs.len() ==> (#[trigger] cs[i].span).start < mid,
    ensures
        comments_in_range(cs, mid, hi) == Seq::<Comment>::empty(),
    decreases cs.len(),
{
    if cs.len() > 0 {
        let head = cs.drop_last();
        assert(forall|i: int| 0 <= i < head.len() ==> (#[trigger] head[i].span).start < mid);
        lemma_comment_query_empty(head, mid, hi);
        assert(comments_in_range(cs, mid, hi) =~= Seq::<Comment>::empty());
    }
}

/// Comment conservation across adjacent queries: for a well-formed comment
/// list, splitting a query range at a point that cuts no comment splits the
/// answer — the two answers joined are exactly the answer for the whole
/// range. So over the increasing, non-overlapping ranges the traversal
/// issues, every comment is handed out exactly once, in source order.
pub proof fn lemma_comment_query_split(cs: Seq<Comment>, lo: int, mid: int, hi: int)
    requires
        lo <= mid <= hi,
        comments_well_formed(cs),
        forall|i: int|
            0 <= i < cs.len() ==> ((#[trigger] cs[i].span).end <= mid || mid <= cs[i].span.start),
    ensures
        comments_in_range(cs, lo, hi) == comments_in_range(cs, lo, mid) + comments_in_range(
            cs,
            mid,
            hi,
        ),
    decreases cs.len(),
{
    if cs.len() == 0 {
        assert(comments_in_range(cs, lo, hi) =~= comments_in_range(cs, lo, mid)
            + comments_in_range(cs, mid, hi));
    } else {
        let head = cs.drop_last();
        assert(forall|i: int| 0 <= i < head.len() ==> head[i] == cs[i]);
        assert(comments_well_formed(head));
        lemma_comment_query_split(head, lo, mid, hi);
        let c = cs.last();
        assert(c == cs[cs.len() - 1]);
        if lo <= c.span.start && c.span.end <= hi && c.span.end <= mid {
            // the last comment lies left of the cut, so everything does
            assert(forall|i: int|
                0 <= i < head.len() ==> (#[trigger] head[i].span).start < mid) by {
                assert(forall|i: int|
                    0 <= i < head.len() ==> (#[trigger] head[i].span).end <= c.span.start);
            }
            lemma_comment_query_empty(head, mid, hi);
            assert(comments_in_range(cs, mid, hi) =~= Seq::<Comment>::empty());
            assert(comments_in_range(cs, lo, hi) =~= comments_in_range(cs, lo, mid)
                + comments_in_range(cs, mid, hi));
        } else {
            assert(comments_in_range(cs, lo, hi) =~= comments_in_range(cs, lo, mid)
                + comments_in_range(cs, mid, hi));
        }
    }
}

/// No comment qualifies for a query whose range holds none.
proof fn lemma_comment_query_none(cs: Seq<Comment>, lo: int, hi: int)
    requires
        forall|i: int|
            0 <= i < cs.len() ==> !(lo <= (#[trigger] cs[i].span).start && cs[i].span.end <= hi),
    ensures
        comments_in_range(cs, lo, hi) == Seq::<Comment>::empty(),
    decreases cs.len(),
{
    if cs.len() > 0 {
        let head = cs.drop_last();
        assert(forall|i: int| 0 <= i < head.len() ==> head[i] == cs[i]);
        lemma_comment_query_none(head, lo, hi);
        assert(comments_in_range(cs, lo, hi) =~= Seq::<Comment>::empty());
    }
}

/// Statements lying in source order inside the range `lo .. hi`: spans
/// nonempty in the weak sense, ascending, non-overlapping.
pub open spec fn statements_ordered(ss: Seq<Statement>, lo: int, hi: int) -> bool {
    (forall|i: int|
        0 <= i < ss.len() ==> lo <= (#[trigger] ss[i].spec_span()).start
            <= ss[i].spec_span().end <= hi) && (forall|i: int|
        0 <= i < ss.len() - 1 ==> (#[trigger] ss[i].spec_span()).end
            <= ss[i + 1].spec_span().start)
}

/// Comments that never overlap a statement's text: each lies wholly before
/// or wholly after every statement of the sequence.
pub open spec fn comments_avoid_statements(cs: Seq<Comment>, ss: Seq<Statement>) -> bool {
    forall|i: int, j: int|
        0 <= i < cs.len() && 0 <= j < ss.len() ==> ((#[trigger] cs[i].span).end
            <= (#[trigger] ss[j].spec_span()).start || ss[j].spec_span().end <= cs[i].span.start)
}

/// The comment queries the block and stylesheet traversals issue after each
/// statement, joined: after statement `i` the range up to the next
/// statement's start, after the last up to the enclosing construct's end.
pub open spec fn traversal_query_results(
    ss: Seq<Statement>,
    i: int,
    cms: Seq<Comment>,
    limit: int,
) -> Seq<Comment>
    decreases ss.len() - i,
{
    if i < 0 || i >= ss.len() {
        Seq::empty()
    } else {
        comments_in_range(cms, ss[i].spec_span().end as int, stmt_hi(ss, i, limit))
            + traversal_query_results(ss, i + 1, cms, limit)
    }
}

proof fn lemma_comment_conservation_tail(ss: Seq<Statement>, i: int, cms: Seq<Comment>, hi: int)
    requires
        0 <= i < ss.len(),
        statements_ordered(ss, ss[0].spec_span().start as int, hi),
        comments_well_formed(cms),
        comments_avoid_statements(cms, ss),
    ensures
        traversal_query_results(ss, i, cms, hi) == comments_in_range(
            cms,
            ss[i].spec_span().end as int,
            hi,
        ),
    decreases ss.len() - i,
{
    let e_i = ss[i].spec_span().end as int;
    if i == ss.len() - 1 {
        assert(traversal_query_results(ss, i + 1, cms, hi) =~= Seq::<Comment>::empty());
        assert(traversal_query_results(ss, i, cms, hi) =~= comments_in_range(cms, e_i, hi));
    } else {
        let s_n = ss[i + 1].spec_span().start as int;
        let e_n = ss[i + 1].spec_span().end as int;
        assert(e_i <= s_n <= e_n <= hi);
        // no comment crosses the next statement's start
        assert(forall|k: int|
            0 <= k < cms.len() ==> ((#[trigger] cms[k].span).end <= s_n || s_n
                <= cms[k].span.start)) by {
            assert(forall|k: int|
                0 <= k < cms.len() ==> ((#[trigger] cms[k].span).end
                    <= (ss[i + 1].spec_span()).start || (ss[i + 1].spec_span()).end
                    <= cms[k].span.start));
        }
        lemma_comment_query_split(cms, e_i, s_n, hi);
        // no comment crosses the next statement's end
        assert(forall|k: int|
            0 <= k < cms.len() ==> ((#[trigger] cms[k].span).end <= e_n || e_n
                <= cms[k].span.start)) by {
            assert(forall|k: int|
                0 <= k < cms.len() ==> ((#[trigger] cms[k].span).end
                    <= (ss[i + 1].spec_span()).start || (ss[i + 1].spec_span()).end
                    <= cms[k].span.start));
        }
        lemma_comment_query_split(cms, s_n, e_n, hi);
        // no comment lies inside the next statement
        assert(forall|k: int|
            0 <= k < cms.len() ==> !(s_n <= (#[trigger] cms[k].span).start && cms[k].span.end
                <= e_n)) by {
            assert(forall|k: int|
                0 <= k < cms.len() ==> ((#[trigger] cms[k].span).end
                    <= (ss[i + 1].spec_span()).start || (ss[i + 1].spec_span()).end
                    <= cms[k].span.start));
            assert(forall|k: int|
                0 <= k < cms.len() ==> (#[trigger] cms[k].span).start < cms[k].span.end);
        }
        lemma_comment_query_none(cms, s_n, e_n);
        lemma_comment_conservation_tail(ss, i + 1, cms, hi);
        assert(comments_in_range(cms, s_n, hi) =~= comments_in_range(cms, e_n, hi));
        assert(traversal_query_results(ss, i, cms, hi) =~= comments_in_range(cms, e_i, hi));
    }
}

/// Comment conservation: under the traversal's discipline — statements in
/// ascending, non-overlapping source order, comments never overlapping
/// statement text — the leading query before the first statement and the
/// trailing queries after each statement jointly return every comment of
/// the enclosing range exactly once, in source order. No comment is
/// duplicated or dropped.
pub proof fn lemma_comment_conservation(ss: Seq<Statement>, cms: Seq<Comment>, lo: int, hi: int)
    requires
        ss.len() > 0,
        lo <= ss[0].spec_span().start as int,
        statements_ordered(ss, ss[0].spec_span().start as int, hi),
        comments_well_formed(cms),
        comments_avoid_statements(cms, ss),
    ensures
        comments_in_range(cms, lo, ss[0].spec_span().start as int) + traversal_query_results(
            ss,
            0,
            cms,
            hi,
        ) == comments_in_range(cms, lo, hi),
{
    let s_0 = ss[0].spec_span().start as int;
    let e_0 = ss[0].spec_span().end as int;
    assert(forall|k: int|
        0 <= k < cms.len() ==> ((#[trigger] cms[k].span).end <= s_0 || s_0
            <= cms[k].span.start)) by {
        assert(forall|k: int|
            0 <= k < cms.len() ==> ((#[trigger] cms[k].span).end <= (ss[0].spec_span()).start || (
            ss[0].spec_span()).end <= cms[k].span.start));
    }
    lemma_comment_query_split(cms, lo, s_0, hi);
    assert(forall|k: int|
        0 <= k < cms.len() ==> ((#[trigger] cms[k].span).end <= e_0 || e_0
            <= cms[k].span.start)) by {
        assert(forall|k: int|
            0 <= k < cms.len() ==> ((#[trigger] cms[k].span).end <= (ss[0].spec_span()).start || (
            ss[0].spec_span()).end <= cms[k].span.start));
    }
    lemma_comment_query_split(cms, s_0, e_0, hi);
    assert(forall|k: int|
        0 <= k < cms.len() ==> !(s_0 <= (#[trigger] cms[k].span).start && cms[k].span.end
            <= e_0)) by {
        assert(forall|k: int|
            0 <= k < cms.len() ==> ((#[trigger] cms[k].span).end <= (ss[0].spec_span()).start || (
            ss[0].spec_span()).end <= cms[k].span.start));
        assert(forall|k: int|
            0 <= k < cms.len() ==> (#[trigger] cms[k].span).start < cms[k].span.end);
    }
    lemma_comment_query_none(cms, s_0, e_0);
    lemma_comment_conservation_tail(ss, 0, cms, hi);
    assert(comments_in_range(cms, lo, s_0) + traversal_query_results(ss, 0, cms, hi)
        =~= comments_in_range(cms, lo, hi));
}

/// Blank-line collapsing: with `k` whole blank source lines between two
/// adjacent statements, the interior keeps exactly one blank line when the
/// source had one or more, and none when the statements stood on adjacent
/// lines — never more than one, however many the source had.
pub proof fn lemma_blank_line_collapsing(ss: Seq<Statement>, i: int, ctx: Ctx, k: int)
    requires
        0 <= i,
        i + 1 < ss.len(),
        k >= 0,
        line_index(ctx.line_bounds.bounds(), ss[i + 1].spec_span().start as int) - line_index(
            ctx.line_bounds.bounds(),
            sub1(ss[i].spec_span().end),
        ) == k + 1,
    ensures
        k >= 1 ==> blank_sep(ss, i, ctx) == seq![LayoutDocV::EmptyLine],
        k == 0 ==> blank_sep(ss, i, ctx) == Seq::<LayoutDocV>::empty(),
{
    assert(spec_away(ctx, ss[i].spec_span().end, ss[i + 1].spec_span().start) == (k + 1 > 1));
}

/// Selector break policies: the selector list renders each selector's own
/// fragment; between adjacent selectors stand exactly one literal comma and
/// one break — an unconditional break under `always`, one group-wide
/// conditional break under `consistent`, an independent conditional break
/// under `wrap`. The qualified-rule formatter wraps this whole sequence in
/// one fitting group.
pub proof fn lemma_selector_break_policies(
    sels: Seq<Selector>,
    i: int,
    policy: BlockSelectorLineBreak,
)
    requires
        0 <= i <= sels.len(),
    ensures
        selector_parts(sels, i, policy).len() == (if i == sels.len() {
            0int
        } else {
            3 * (sels.len() - i) - 2
        }),
        forall|j: int|
            i <= j < sels.len() ==> selector_parts(sels, i, policy)[3 * (j - i)] == (
            #[trigger] sels[j]).doc@,
        forall|j: int|
            i <= j < sels.len() - 1 ==> #[trigger] selector_parts(sels, i, policy)[3 * (j - i) + 1]
                == LayoutDocV::Text(","@) && selector_parts(sels, i, policy)[3 * (j - i) + 2]
                == policy_break(policy),
    decreases sels.len() - i,
{
    if i < sels.len() {
        lemma_selector_break_policies(sels, i + 1, policy);
        let p = selector_parts(sels, i, policy);
        let rest = selector_parts(sels, i + 1, policy);
        if i + 1 < sels.len() {
            assert(p =~= seq![sels[i].doc@, LayoutDocV::Text(","@), policy_break(policy)] + rest);
            assert forall|j: int| i <= j < sels.len() implies p[3 * (j - i)] == (
            #[trigger] sels[j]).doc@ by {
                if j > i {
                    assert(p[3 * (j - i)] == rest[3 * (j - i - 1)]);
                }
            }
            assert forall|j: int| i <= j < sels.len() - 1 implies #[trigger] p[3 * (j - i) + 1]
                == LayoutDocV::Text(","@) && p[3 * (j - i) + 2] == policy_break(policy) by {
                if j > i {
                    assert(rest[3 * (j - (i + 1)) + 1] == LayoutDocV::Text(","@));
                    assert(rest[3 * (j - (i + 1)) + 2] == policy_break(policy));
                    assert(p[3 * (j - i) + 1] == rest[3 * (j - i) + 1 - 3]);
                    assert(p[3 * (j - i) + 2] == rest[3 * (j - i) + 2 - 3]);
                } else {
                    assert(p[1] == LayoutDocV::Text(","@));
                    assert(p[2] == policy_break(policy));
                }
            }
        } else {
            assert(p =~= seq![sels[i].doc@]);
        }
    }
}

/// Terminator correctness: the indentation-based dialect never appends a
/// statement terminator; a brace-using dialect appends the literal `;` to a
/// brace-less at-rule and to a declaration whose value does not end in the
/// self-terminating nesting marker, and to nothing else.
pub proof fn lemma_terminator_policy(s: Statement, ctx: Ctx)
    ensures
        ctx.syntax == Syntax::Sass ==> !spec_needs_terminator(s, ctx.syntax),
        s matches Statement::AtRule(a) ==> stmt_doc(s, ctx) == Ok::<LayoutDocV, crate::Span>(
            if spec_needs_terminator(s, ctx.syntax) {
                with_terminator(a.doc@)
            } else {
                a.doc@
            },
        ),
        s matches Statement::Declaration(d) ==> stmt_doc(s, ctx) == Ok::<LayoutDocV, crate::Span>(
            if spec_needs_terminator(s, ctx.syntax) {
                with_terminator(decl_doc(d, ctx))
            } else {
                decl_doc(d, ctx)
            },
        ),
        s matches Statement::KeyframeBlock(_) ==> !spec_needs_terminator(s, ctx.syntax),
        s matches Statement::QualifiedRule(_) ==> !spec_needs_terminator(s, ctx.syntax),
{
}

/// Structured values are reflowed purely by width: the break after a value
/// node depends only on whether the next sibling is a comma or semicolon
/// delimiter, never on where the source placed its line breaks.
pub proof fn lemma_structured_breaks_ignore_source_lines(
    vals: Seq<ComponentValue>,
    other: Seq<ComponentValue>,
    i: int,
)
    requires
        vals.len() == other.len(),
        0 <= i < vals.len(),
        i + 1 < vals.len() ==> other[i + 1].spec_is_comma_or_semicolon_delimiter() == vals[i
            + 1].spec_is_comma_or_semicolon_delimiter(),
    ensures
        structured_break(vals, i) == structured_break(other, i),
{
}

} // verus!
