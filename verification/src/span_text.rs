//! The characters a span of positions covers, for the text stored with a
//! highlight.
//!
//! Images contribute nothing, so a highlight over a figure has empty text
//! rather than a placeholder: the geometry is what makes it visible, and the
//! text is only there for notes and export.

use vstd::prelude::*;

use crate::caret::{Caret, Cell, CellKind};
use crate::text::push_char;
use crate::words::{less_one, lines_of, DocumentText};

verus! {

/// The characters of the cells `first..=last` of `l` (those it has), in
/// order.
pub open spec fn cells_chars(l: Seq<Cell>, first: int, last: int) -> Seq<char>
    decreases last + 1 - first,
{
    if first < 0 || first > last || first >= l.len() {
        Seq::empty()
    } else {
        (match l[first].kind {
            CellKind::Char(c) => seq![c],
            CellKind::Image => Seq::empty(),
        }) + cells_chars(l, first + 1, last)
    }
}

/// The characters the span from `start` to `end` covers on the lines of
/// page `p` from line `li` on.
pub open spec fn lines_chars(
    t: Seq<Seq<Seq<Cell>>>,
    start: Caret,
    end: Caret,
    p: int,
    li: int,
) -> Seq<char>
    decreases lines_of(t, p) - li,
{
    if li < 0 || li >= lines_of(t, p) {
        Seq::empty()
    } else if p == start.page && li < start.line {
        lines_chars(t, start, end, p, li + 1)
    } else if p == end.page && li > end.line {
        Seq::empty()
    } else {
        let l = t[p][li];
        let first = if p == start.page && li == start.line {
            start.cell as int
        } else {
            0
        };
        let last = if p == end.page && li == end.line {
            end.cell as int
        } else {
            less_one(l.len() as int)
        };
        cells_chars(l, first, last) + lines_chars(t, start, end, p, li + 1)
    }
}

/// The characters the span from `start` to `end` covers on pages `p` to
/// `end.page`.
pub open spec fn pages_chars(t: Seq<Seq<Seq<Cell>>>, start: Caret, end: Caret, p: int) -> Seq<char>
    decreases end.page + 1 - p,
{
    if p > end.page {
        Seq::empty()
    } else {
        lines_chars(t, start, end, p, 0) + pages_chars(t, start, end, p + 1)
    }
}

/// The characters the inclusive span from `start` to `end` covers.
pub open spec fn span_chars(t: Seq<Seq<Seq<Cell>>>, start: Caret, end: Caret) -> Seq<char> {
    pages_chars(t, start, end, start.page as int)
}

/// Past the last page nothing is covered.
proof fn lemma_pages_past_end(t: Seq<Seq<Seq<Cell>>>, start: Caret, end: Caret, p: int)
    requires
        p >= t.len(),
    ensures
        pages_chars(t, start, end, p) == Seq::<char>::empty(),
    decreases end.page + 1 - p,
{
    if p <= end.page {
        assert(lines_chars(t, start, end, p, 0) == Seq::<char>::empty());
        lemma_pages_past_end(t, start, end, p + 1);
        assert(pages_chars(t, start, end, p) =~= Seq::<char>::empty());
    }
}

/// Append the characters of cells `first..=last` of `l` to `out`.
fn push_cells(out: &mut String, l: &Vec<Cell>, first: usize, last: usize)
    ensures
        final(out)@ == old(out)@ + cells_chars(l@, first as int, last as int),
{
    let ghost start = out@;
    let mut i: usize = first;
    while i < l.len() && i <= last
        invariant
            first <= i,
            start + cells_chars(l@, first as int, last as int) == out@ + cells_chars(
                l@,
                i as int,
                last as int,
            ),
        decreases l@.len() - i,
    {
        let ghost before = out@;
        if let CellKind::Char(c) = l[i].kind {
            push_char(out, c);
        }
        assert(before + cells_chars(l@, i as int, last as int) =~= out@ + cells_chars(
            l@,
            i as int + 1,
            last as int,
        ));
        i = i + 1;
    }
    assert(cells_chars(l@, i as int, last as int) =~= Seq::<char>::empty());
}

impl DocumentText {
    /// The characters the inclusive span from `start` to `end` covers, in
    /// document order; images give none.
    pub fn span_text(&self, start: Caret, end: Caret) -> (r: String)
        ensures
            r@ == span_chars(self.text(), start, end),
    {
        let ghost t = self.text();
        let mut out = String::new();
        let n = self.pages.len();
        let mut p: usize = start.page;
        while p < n && p <= end.page
            invariant
                t == self.text(),
                n == t.len(),
                start.page <= p,
                span_chars(t, start, end) == out@ + pages_chars(t, start, end, p as int),
            decreases n - p,
        {
            let ghost page_start = out@;
            let lines = &self.pages[p];
            let mut li: usize = 0;
            while li < lines.len()
                invariant
                    t == self.text(),
                    p < n == t.len(),
                    lines@.len() == lines_of(t, p as int),
                    forall|k: int| 0 <= k < lines@.len() ==> (#[trigger] lines@[k])@ == t[p as int][k],
                    li <= lines@.len(),
                    page_start + lines_chars(t, start, end, p as int, 0) == out@ + lines_chars(
                        t,
                        start,
                        end,
                        p as int,
                        li as int,
                    ),
                ensures
                    page_start + lines_chars(t, start, end, p as int, 0) == out@,
                decreases lines@.len() - li,
            {
                if p == start.page && li < start.line {
                    li = li + 1;
                    continue;
                }
                if p == end.page && li > end.line {
                    assert(out@ + lines_chars(t, start, end, p as int, li as int) =~= out@);
                    break;
                }
                let line = &lines[li];
                let first = if p == start.page && li == start.line {
                    start.cell
                } else {
                    0
                };
                let last = if p == end.page && li == end.line {
                    end.cell
                } else if line.len() > 0 {
                    line.len() - 1
                } else {
                    0
                };
                let ghost before = out@;
                push_cells(&mut out, line, first, last);
                assert(before + lines_chars(t, start, end, p as int, li as int) =~= out@
                    + lines_chars(t, start, end, p as int, li as int + 1));
                li = li + 1;
            }
            assert(span_chars(t, start, end) =~= out@ + pages_chars(t, start, end, p as int + 1));
            p = p + 1;
        }
        proof {
            if p < n {
                assert(pages_chars(t, start, end, p as int) == Seq::<char>::empty());
            } else {
                lemma_pages_past_end(t, start, end, p as int);
            }
        }
        out
    }
}

} // verus!
