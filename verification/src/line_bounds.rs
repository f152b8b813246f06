//! An index of the source's line boundaries, used to tell whether two source
//! offsets are separated by a blank line.
use vstd::prelude::*;

verus! {

/// The positions of the line-feed bytes of a source text, ascending.
pub open spec fn newline_positions(src: Seq<u8>) -> Seq<usize>
    decreases src.len(),
{
    if src.len() == 0 {
        Seq::empty()
    } else {
        newline_positions(src.drop_last()) + (if src.last() == 10u8 {
            seq![(src.len() - 1) as usize]
        } else {
            Seq::empty()
        })
    }
}

/// How many of the positions in `bounds` lie strictly below `pos`. With
/// `bounds` the line-feed positions of the source, this is the zero-based
/// line number of offset `pos`.
pub open spec fn line_index(bounds: Seq<usize>, pos: int) -> int
    decreases bounds.len(),
{
    if bounds.len() == 0 {
        0
    } else {
        line_index(bounds.drop_last(), pos) + (if bounds.last() < pos {
            1int
        } else {
            0int
        })
    }
}

/// Line-boundary index of one source text.
pub struct LineBounds {
    line_breaks: Vec<usize>,
}

impl LineBounds {
    /// The positions this index was built from.
    pub closed spec fn bounds(&self) -> Seq<usize> {
        self.line_breaks@
    }

    /// Scans the source bytes for line feeds.
    pub fn new(src: &[u8]) -> (r: LineBounds)
        ensures
            r.bounds() == newline_positions(src@),
    {
        let mut line_breaks: Vec<usize> = Vec::new();
        let n = src.len();
        let mut i: usize = 0;
        while i < n
            invariant
                n == src@.len(),
                i <= n,
                line_breaks@ == newline_positions(src@.take(i as int)),
            decreases n - i,
        {
            proof {
                assert(src@.take(i + 1).drop_last() =~= src@.take(i as int));
                assert(src@.take(i + 1).last() == src@[i as int]);
            }
            if src[i] == 10 {
                line_breaks.push(i);
            }
            proof {
                if src@[i as int] == 10u8 {
                    assert(line_breaks@ =~= newline_positions(src@.take(i + 1)));
                } else {
                    assert(line_breaks@ =~= newline_positions(src@.take(i + 1)));
                }
            }
            i = i + 1;
        }
        proof {
            assert(src@.take(n as int) =~= src@);
        }
        LineBounds { line_breaks }
    }

    /// How many recorded line breaks lie strictly below `pos`.
    fn count_below(&self, pos: usize) -> (r: usize)
        ensures
            r == line_index(self.bounds(), pos as int),
            r <= self.bounds().len(),
    {
        let n = self.line_breaks.len();
        let mut count: usize = 0;
        let mut i: usize = 0;
        while i < n
            invariant
                n == self.line_breaks@.len(),
                i <= n,
                count == line_index(self.line_breaks@.take(i as int), pos as int),
                count <= i,
            decreases n - i,
        {
            proof {
                assert(self.line_breaks@.take(i + 1).drop_last() =~= self.line_breaks@.take(
                    i as int,
                ));
            }
            if self.line_breaks[i] < pos {
                count = count + 1;
            }
            i = i + 1;
        }
        proof {
            assert(self.line_breaks@.take(n as int) =~= self.line_breaks@);
        }
        count
    }

    /// Whether offsets `start` and `end` lie more than one source line apart,
    /// that is, at least one whole blank line stands between them.
    pub fn is_away_more_than_one_line(&self, start: usize, end: usize) -> (r: bool)
        ensures
            r == (line_index(self.bounds(), end as int) - line_index(self.bounds(), start as int)
                > 1),
    {
        let a = self.count_below(start);
        let b = self.count_below(end);
        if b > a {
            b - a > 1
        } else {
            false
        }
    }
}

} // verus!
