//! The per-run context: dialect, options, indentation width, the source's
//! comment list and line-boundary index. It is built once per formatting call
//! and passed by reference down every recursive call, never mutated.
use crate::ast::Comment;
use crate::config::{LanguageOptions, Syntax};
use crate::line_bounds::LineBounds;
use vstd::prelude::*;

verus! {

/// The ordered subsequence of `cs` whose spans fall entirely inside the
/// half-open range `lo .. hi`.
pub open spec fn comments_in_range(cs: Seq<Comment>, lo: int, hi: int) -> Seq<Comment>
    decreases cs.len(),
{
    if cs.len() == 0 {
        Seq::empty()
    } else {
        comments_in_range(cs.drop_last(), lo, hi) + (if lo <= cs.last().span.start
            && cs.last().span.end <= hi {
            seq![cs.last()]
        } else {
            Seq::empty()
        })
    }
}

/// Read-only bundle threaded through one formatting run.
pub struct Ctx {
    pub syntax: Syntax,
    pub options: LanguageOptions,
    pub indent_width: usize,
    pub comments: Vec<Comment>,
    pub line_bounds: LineBounds,
}

impl Ctx {
    /// Which comments fall strictly between source offset `lo` and offset
    /// `hi`, in ascending order. Callers issue these ranges in strictly
    /// increasing, non-overlapping order, matching a left-to-right traversal;
    /// under that discipline every comment is returned by exactly one call.
    pub fn get_comments_between(&self, lo: usize, hi: usize) -> (r: Vec<Comment>)
        ensures
            r@ == comments_in_range(self.comments@, lo as int, hi as int),
    {
        let n = self.comments.len();
        let mut r: Vec<Comment> = Vec::new();
        let mut i: usize = 0;
        while i < n
            invariant
                n == self.comments@.len(),
                i <= n,
                r@ == comments_in_range(self.comments@.take(i as int), lo as int, hi as int),
            decreases n - i,
        {
            proof {
                assert(self.comments@.take(i + 1).drop_last() =~= self.comments@.take(i as int));
            }
            let c = &self.comments[i];
            if lo <= c.span.start && c.span.end <= hi {
                r.push(c.duplicate());
            }
            i = i + 1;
        }
        proof {
            assert(self.comments@.take(n as int) =~= self.comments@);
        }
        r
    }
}

} // verus!
