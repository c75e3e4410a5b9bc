//! Paragraph motion: a page's paragraphs, the one holding a line, and the
//! stepping of `p` from one paragraph to the next or previous.
//!
//! The layout analysis groups a page's lines into paragraphs by the gaps
//! between them. An object that stands alone as a paragraph cuts the groups
//! around it, so no paragraph straddles it. Paragraph search passes over
//! footnotes, the same way sentence search does.

use vstd::prelude::*;

use crate::caret::{split_all, split_segments_at_objects, Caret, ContentObject, ParagraphMark};
use crate::sentences::{in_footnote_region, page_objects};
use crate::words::{bounded, lines_of, DocumentText};

verus! {

impl DocumentText {
    /// The paragraph groups of each page.
    pub open spec fn segment_table(&self) -> Seq<Seq<(usize, usize)>> {
        self.paragraphs@.map_values(|v: Vec<(usize, usize)>| v@)
    }

    /// Every paragraph group is an inclusive range of its page's lines.
    pub open spec fn paragraphs_fit(&self) -> bool {
        groups_fit(self.text(), self.segment_table())
    }
}

/// Every group of `s` is an inclusive range of lines of its page of `t`.
pub open spec fn groups_fit(t: Seq<Seq<Seq<crate::caret::Cell>>>, s: Seq<Seq<(usize, usize)>>) -> bool {
    forall|p: int, k: int|
        #![trigger s[p][k]]
        0 <= p < s.len() && 0 <= k < s[p].len() ==> s[p][k].0 <= s[p][k].1 < lines_of(t, p)
}

/// The paragraph groups of `page`; none for a page the table does not reach.
pub open spec fn page_groups(s: Seq<Seq<(usize, usize)>>, page: int) -> Seq<(usize, usize)> {
    if 0 <= page < s.len() {
        s[page]
    } else {
        Seq::empty()
    }
}

/// Whether `o` stands alone as a paragraph.
pub open spec fn splits(o: ContentObject) -> bool {
    o.kind.splits_paragraphs
}

/// The objects of `page` that stand alone as paragraphs, in order.
pub open spec fn splitting_objects(o: Seq<Seq<ContentObject>>, page: int) -> Seq<ContentObject> {
    page_objects(o, page).filter(|x: ContentObject| splits(x))
}

/// The paragraphs of `page`: its groups, cut at every object that stands
/// alone as a paragraph.
pub open spec fn paragraphs_of(
    o: Seq<Seq<ContentObject>>,
    s: Seq<Seq<(usize, usize)>>,
    page: int,
) -> Seq<(usize, usize)> {
    if splitting_objects(o, page).len() == 0 {
        page_groups(s, page)
    } else {
        split_all(page_groups(s, page), splitting_objects(o, page))
    }
}

/// Whether `line` lies in paragraph `seg`.
pub open spec fn in_segment(seg: (usize, usize), line: int) -> bool {
    seg.0 <= line <= seg.1
}

/// The index of the first paragraph of `segs` from `i` on that holds `line`.
pub open spec fn segment_from(segs: Seq<(usize, usize)>, line: int, i: int) -> Option<int>
    decreases segs.len() - i,
{
    if i < 0 || i >= segs.len() {
        None
    } else if in_segment(segs[i], line) {
        Some(i)
    } else {
        segment_from(segs, line, i + 1)
    }
}

/// Whether paragraph `seg` of `page` is a stop for paragraph search: it does
/// not open inside a footnote.
pub open spec fn paragraph_stop(o: Seq<Seq<ContentObject>>, page: int, seg: (usize, usize)) -> bool {
    !in_footnote_region(o, Caret { page: page as usize, line: seg.0, cell: 0 })
}

/// The index of the first stop of `segs` (the paragraphs of `page`) from `i`
/// on.
pub open spec fn stop_from(
    o: Seq<Seq<ContentObject>>,
    page: int,
    segs: Seq<(usize, usize)>,
    i: int,
) -> Option<int>
    decreases segs.len() - i,
{
    if i < 0 || i >= segs.len() {
        None
    } else if paragraph_stop(o, page, segs[i]) {
        Some(i)
    } else {
        stop_from(o, page, segs, i + 1)
    }
}

/// The index of the last stop of `segs` (the paragraphs of `page`) before
/// `i`.
pub open spec fn stop_before(
    o: Seq<Seq<ContentObject>>,
    page: int,
    segs: Seq<(usize, usize)>,
    i: int,
) -> Option<int>
    decreases i,
{
    if i <= 0 || i > segs.len() {
        None
    } else if paragraph_stop(o, page, segs[i - 1]) {
        Some(i - 1)
    } else {
        stop_before(o, page, segs, i - 1)
    }
}

/// The mark for paragraph `seg` of `page`.
pub open spec fn mark_of(page: int, seg: (usize, usize)) -> ParagraphMark {
    ParagraphMark { page: page as usize, start_line: seg.0, end_line: seg.1 }
}

/// The first stop on a page with content from `page` on.
pub open spec fn first_stop_from_page(
    t: Seq<Seq<Seq<crate::caret::Cell>>>,
    o: Seq<Seq<ContentObject>>,
    s: Seq<Seq<(usize, usize)>>,
    page: int,
) -> Option<ParagraphMark>
    decreases t.len() - page,
{
    if page < 0 || page >= t.len() {
        None
    } else {
        let segs = paragraphs_of(o, s, page);
        match stop_from(o, page, segs, 0) {
            Some(k) if lines_of(t, page) > 0 => Some(mark_of(page, segs[k])),
            _ => first_stop_from_page(t, o, s, page + 1),
        }
    }
}

/// The last stop on a page with content before `page`.
pub open spec fn last_stop_before_page(
    t: Seq<Seq<Seq<crate::caret::Cell>>>,
    o: Seq<Seq<ContentObject>>,
    s: Seq<Seq<(usize, usize)>>,
    page: int,
) -> Option<ParagraphMark>
    decreases page,
{
    if page <= 0 {
        None
    } else {
        let segs = paragraphs_of(o, s, page - 1);
        match stop_before(o, page - 1, segs, segs.len() as int) {
            Some(k) if lines_of(t, page - 1) > 0 => Some(mark_of(page - 1, segs[k])),
            _ => last_stop_before_page(t, o, s, page - 1),
        }
    }
}

/// The paragraph holding `line` of `page`: the first that holds it, or else
/// the last paragraph of the page; none on a page without paragraphs.
pub open spec fn containing(
    o: Seq<Seq<ContentObject>>,
    s: Seq<Seq<(usize, usize)>>,
    page: int,
    line: int,
) -> Option<ParagraphMark> {
    let segs = paragraphs_of(o, s, page);
    match segment_from(segs, line, 0) {
        Some(i) => Some(mark_of(page, segs[i])),
        None => if segs.len() > 0 {
            Some(mark_of(page, segs.last()))
        } else {
            None
        },
    }
}

/// Where `p` goes from `m`: the next stop after the paragraph holding the
/// mark's first line on its page, or else the first stop on a later page.
pub open spec fn paragraph_after(
    t: Seq<Seq<Seq<crate::caret::Cell>>>,
    o: Seq<Seq<ContentObject>>,
    s: Seq<Seq<(usize, usize)>>,
    m: ParagraphMark,
) -> Option<ParagraphMark> {
    let segs = paragraphs_of(o, s, m.page as int);
    let here = match segment_from(segs, m.start_line as int, 0) {
        Some(i) => match stop_from(o, m.page as int, segs, i + 1) {
            Some(k) => Some(mark_of(m.page as int, segs[k])),
            None => None,
        },
        None => None,
    };
    match here {
        Some(x) => Some(x),
        None => first_stop_from_page(t, o, s, m.page + 1),
    }
}

/// Where `P` goes from `m`: the previous stop before the paragraph holding
/// the mark's first line on its page, or else the last stop on an earlier
/// page.
pub open spec fn paragraph_before(
    t: Seq<Seq<Seq<crate::caret::Cell>>>,
    o: Seq<Seq<ContentObject>>,
    s: Seq<Seq<(usize, usize)>>,
    m: ParagraphMark,
) -> Option<ParagraphMark> {
    let segs = paragraphs_of(o, s, m.page as int);
    let here = match segment_from(segs, m.start_line as int, 0) {
        Some(i) => match stop_before(o, m.page as int, segs, i) {
            Some(k) => Some(mark_of(m.page as int, segs[k])),
            None => None,
        },
        None => None,
    };
    match here {
        Some(x) => Some(x),
        None => last_stop_before_page(t, o, s, m.page as int),
    }
}

impl DocumentText {
    /// The paragraphs of `page`: its groups, cut so that no paragraph
    /// straddles an object that stands alone as one.
    ///
    /// List items are the exception: a list is a single paragraph made of
    /// many items, so `p` skips the whole list while `s` walks it item by
    /// item.
    pub fn page_paragraphs(&self, page: usize) -> (r: Vec<(usize, usize)>)
        requires
            self.paragraphs_fit(),
        ensures
            r@ == paragraphs_of(self.object_table(), self.segment_table(), page as int),
    {
        let ghost o = self.object_table();
        let ghost pred = |x: ContentObject| splits(x);
        let mut splitting: Vec<ContentObject> = Vec::new();
        if page < self.objects.len() {
            let objects = &self.objects[page];
            let mut i: usize = 0;
            while i < objects.len()
                invariant
                    i <= objects@.len(),
                    objects@ == page_objects(o, page as int),
                    pred == (|x: ContentObject| splits(x)),
                    splitting@ == objects@.take(i as int).filter(pred),
                decreases objects@.len() - i,
            {
                let ghost before = splitting@;
                if objects[i].kind.splits_paragraphs {
                    splitting.push(objects[i]);
                }
                proof {
                    reveal(Seq::filter);
                    let next = objects@.take(i as int + 1);
                    assert(next.drop_last() =~= objects@.take(i as int));
                    assert(next.last() == objects@[i as int]);
                    assert(pred(objects@[i as int]) == objects@[i as int].kind.splits_paragraphs);
                    assert(next.filter(pred) == if pred(next.last()) {
                        next.drop_last().filter(pred).push(next.last())
                    } else {
                        next.drop_last().filter(pred)
                    });
                }
                i = i + 1;
            }
            assert(objects@.take(objects@.len() as int) =~= objects@);
        } else {
            proof {
                reveal(Seq::filter);
            }
            assert(page_objects(o, page as int).filter(pred) =~= Seq::<ContentObject>::empty());
        }
        assert(splitting@ == splitting_objects(o, page as int));
        let empty: Vec<(usize, usize)> = Vec::new();
        let groups: &Vec<(usize, usize)> = if page < self.paragraphs.len() {
            &self.paragraphs[page]
        } else {
            &empty
        };
        assert(groups@ == page_groups(self.segment_table(), page as int));
        proof {
            self.lemma_bounded();
            if page < self.paragraphs.len() {
                assert forall|k: int| 0 <= k < groups@.len() implies (#[trigger] groups@[k]).1
                    < usize::MAX by {
                    assert(self.segment_table()[page as int][k] == groups@[k]);
                    assert(lines_of(self.text(), page as int) <= usize::MAX);
                }
            }
        }
        split_segments_at_objects(groups.as_slice(), splitting.as_slice())
    }
}

/// Past the last page of `t`, no page has content, so the search back from
/// any page beyond it is the search back from its end.
pub proof fn lemma_stop_before_past_end(
    t: Seq<Seq<Seq<crate::caret::Cell>>>,
    o: Seq<Seq<ContentObject>>,
    s: Seq<Seq<(usize, usize)>>,
    page: int,
)
    requires
        page >= t.len(),
    ensures
        last_stop_before_page(t, o, s, page) == last_stop_before_page(t, o, s, t.len() as int),
    decreases page - t.len(),
{
    if page > t.len() {
        assert(lines_of(t, page - 1) == 0);
        lemma_stop_before_past_end(t, o, s, page - 1);
    }
}

/// What [`stop_from`] finds is a stop at or after where the search began.
pub proof fn lemma_stop_from(o: Seq<Seq<ContentObject>>, page: int, segs: Seq<(usize, usize)>, i: int)
    ensures
        match stop_from(o, page, segs, i) {
            Some(k) => i <= k < segs.len() && paragraph_stop(o, page, segs[k]),
            None => true,
        },
    decreases segs.len() - i,
{
    if 0 <= i < segs.len() && !paragraph_stop(o, page, segs[i]) {
        lemma_stop_from(o, page, segs, i + 1);
    }
}

/// What [`stop_before`] finds is a stop before where the search began.
pub proof fn lemma_stop_before(o: Seq<Seq<ContentObject>>, page: int, segs: Seq<(usize, usize)>, i: int)
    ensures
        match stop_before(o, page, segs, i) {
            Some(k) => 0 <= k < i && k < segs.len() && paragraph_stop(o, page, segs[k]),
            None => true,
        },
    decreases i,
{
    if 0 < i <= segs.len() && !paragraph_stop(o, page, segs[i - 1]) {
        lemma_stop_before(o, page, segs, i - 1);
    }
}

/// What the search forward over pages finds is a stop.
pub proof fn lemma_first_stop_from_page(
    t: Seq<Seq<Seq<crate::caret::Cell>>>,
    o: Seq<Seq<ContentObject>>,
    s: Seq<Seq<(usize, usize)>>,
    page: int,
)
    requires
        t.len() <= usize::MAX,
    ensures
        match first_stop_from_page(t, o, s, page) {
            Some(m) => page <= m.page && paragraph_stop(o, m.page as int, (m.start_line, m.end_line)),
            None => true,
        },
    decreases t.len() - page,
{
    if 0 <= page < t.len() {
        let segs = paragraphs_of(o, s, page);
        lemma_stop_from(o, page, segs, 0);
        match stop_from(o, page, segs, 0) {
            Some(k) => {
                if lines_of(t, page) <= 0 {
                    lemma_first_stop_from_page(t, o, s, page + 1);
                }
            },
            None => {
                lemma_first_stop_from_page(t, o, s, page + 1);
            },
        }
    }
}

/// What the search back over pages finds is a stop.
pub proof fn lemma_last_stop_before_page(
    t: Seq<Seq<Seq<crate::caret::Cell>>>,
    o: Seq<Seq<ContentObject>>,
    s: Seq<Seq<(usize, usize)>>,
    page: int,
)
    requires
        page <= usize::MAX,
    ensures
        match last_stop_before_page(t, o, s, page) {
            Some(m) => m.page < page && paragraph_stop(o, m.page as int, (m.start_line, m.end_line)),
            None => true,
        },
    decreases page,
{
    if page > 0 {
        let segs = paragraphs_of(o, s, page - 1);
        lemma_stop_before(o, page - 1, segs, segs.len() as int);
        match stop_before(o, page - 1, segs, segs.len() as int) {
            Some(k) => {
                if lines_of(t, page - 1) <= 0 {
                    lemma_last_stop_before_page(t, o, s, page - 1);
                }
            },
            None => {
                lemma_last_stop_before_page(t, o, s, page - 1);
            },
        }
    }
}

/// `p` and `P` never land in a footnote: whatever paragraph they move to
/// opens outside every footnote.
pub proof fn lemma_paragraph_search_skips_footnotes(
    t: Seq<Seq<Seq<crate::caret::Cell>>>,
    o: Seq<Seq<ContentObject>>,
    s: Seq<Seq<(usize, usize)>>,
    m: ParagraphMark,
)
    requires
        bounded(t),
    ensures
        match paragraph_after(t, o, s, m) {
            Some(n) => !in_footnote_region(o, Caret { page: n.page, line: n.start_line, cell: 0 }),
            None => true,
        },
        match paragraph_before(t, o, s, m) {
            Some(n) => !in_footnote_region(o, Caret { page: n.page, line: n.start_line, cell: 0 }),
            None => true,
        },
{
    let segs = paragraphs_of(o, s, m.page as int);
    match segment_from(segs, m.start_line as int, 0) {
        Some(i) => {
            lemma_stop_from(o, m.page as int, segs, i + 1);
            lemma_stop_before(o, m.page as int, segs, i);
        },
        None => {},
    }
    lemma_first_stop_from_page(t, o, s, m.page + 1);
    lemma_last_stop_before_page(t, o, s, m.page as int);
}

/// The index of the first paragraph of `segs` that holds `line`.
fn segment_index(segs: &Vec<(usize, usize)>, line: usize) -> (r: Option<usize>)
    ensures
        match r {
            Some(i) => i < segs@.len() && segment_from(segs@, line as int, 0) == Some(i as int),
            None => segment_from(segs@, line as int, 0) is None,
        },
{
    let mut i: usize = 0;
    while i < segs.len()
        invariant
            i <= segs@.len(),
            segment_from(segs@, line as int, 0) == segment_from(segs@, line as int, i as int),
        decreases segs@.len() - i,
    {
        if segs[i].0 <= line && line <= segs[i].1 {
            return Some(i);
        }
        i = i + 1;
    }
    None
}

impl DocumentText {
    /// The index of the first stop among the paragraphs `segs` of `page` from
    /// `from` on.
    fn first_stop(&self, page: usize, segs: &Vec<(usize, usize)>, from: usize) -> (r: Option<
        usize,
    >)
        ensures
            match r {
                Some(k) => from <= k < segs@.len() && stop_from(
                    self.object_table(),
                    page as int,
                    segs@,
                    from as int,
                ) == Some(k as int),
                None => stop_from(self.object_table(), page as int, segs@, from as int) is None,
            },
    {
        let mut i: usize = from;
        while i < segs.len()
            invariant
                from <= i,
                stop_from(self.object_table(), page as int, segs@, from as int) == stop_from(
                    self.object_table(),
                    page as int,
                    segs@,
                    i as int,
                ),
            decreases segs@.len() - i,
        {
            if !self.in_footnote(Caret { page, line: segs[i].0, cell: 0 }) {
                return Some(i);
            }
            i = i + 1;
        }
        None
    }

    /// The index of the last stop among the paragraphs `segs` of `page`
    /// before `before`.
    fn last_stop(&self, page: usize, segs: &Vec<(usize, usize)>, before: usize) -> (r: Option<
        usize,
    >)
        requires
            before <= segs@.len(),
        ensures
            match r {
                Some(k) => k < before && stop_before(
                    self.object_table(),
                    page as int,
                    segs@,
                    before as int,
                ) == Some(k as int),
                None => stop_before(self.object_table(), page as int, segs@, before as int) is None,
            },
    {
        let mut i: usize = before;
        while i > 0
            invariant
                i <= before <= segs@.len(),
                stop_before(self.object_table(), page as int, segs@, before as int) == stop_before(
                    self.object_table(),
                    page as int,
                    segs@,
                    i as int,
                ),
            decreases i,
        {
            if !self.in_footnote(Caret { page, line: segs[i - 1].0, cell: 0 }) {
                return Some(i - 1);
            }
            i = i - 1;
        }
        None
    }

    /// The paragraph that holds `line` on `page`: the first that holds it,
    /// or else the page's last paragraph; none on a page without
    /// paragraphs.
    pub fn paragraph_mark_containing(&self, page: usize, line: usize) -> (r: Option<
        ParagraphMark,
    >)
        requires
            self.paragraphs_fit(),
        ensures
            r == containing(self.object_table(), self.segment_table(), page as int, line as int),
    {
        let segs = self.page_paragraphs(page);
        match segment_index(&segs, line) {
            Some(i) => Some(ParagraphMark { page, start_line: segs[i].0, end_line: segs[i].1 }),
            None => if segs.len() > 0 {
                let last = segs[segs.len() - 1];
                Some(ParagraphMark { page, start_line: last.0, end_line: last.1 })
            } else {
                None
            },
        }
    }

    /// `p`: move `mark` to the next paragraph, passing over footnotes; on to
    /// later pages after the last one of its page. `false`, leaving the mark
    /// alone, when there is none.
    pub fn paragraph_step_next(&self, mark: &mut ParagraphMark) -> (moved: bool)
        requires
            self.paragraphs_fit(),
        ensures
            match paragraph_after(self.text(), self.object_table(), self.segment_table(), *old(mark)) {
                Some(m) => moved && *final(mark) == m,
                None => !moved && *final(mark) == *old(mark),
            },
    {
        let ghost t = self.text();
        let ghost o = self.object_table();
        let ghost s = self.segment_table();
        let segs = self.page_paragraphs(mark.page);
        if let Some(i) = segment_index(&segs, mark.start_line) {
            if let Some(k) = self.first_stop(mark.page, &segs, i + 1) {
                *mark = ParagraphMark { page: mark.page, start_line: segs[k].0, end_line: segs[k].1 };
                return true;
            }
        }
        let n = self.pages.len();
        if mark.page >= n {
            return false;
        }
        let mut p: usize = mark.page + 1;
        while p < n
            invariant
                n == t.len(),
                p <= n,
                t == self.text(),
                o == self.object_table(),
                s == self.segment_table(),
                self.paragraphs_fit(),
                paragraph_after(t, o, s, *old(mark)) == first_stop_from_page(t, o, s, old(mark).page
                    + 1),
                first_stop_from_page(t, o, s, old(mark).page + 1) == first_stop_from_page(
                    t,
                    o,
                    s,
                    p as int,
                ),
                *mark == *old(mark),
            decreases n - p,
        {
            let segs = self.page_paragraphs(p);
            if self.page_line_count(p) > 0 {
                if let Some(k) = self.first_stop(p, &segs, 0) {
                    *mark = ParagraphMark { page: p, start_line: segs[k].0, end_line: segs[k].1 };
                    return true;
                }
            }
            p = p + 1;
        }
        false
    }

    /// `P`: move `mark` to the previous paragraph, passing over footnotes;
    /// back to earlier pages before the first one of its page. `false`,
    /// leaving the mark alone, when there is none.
    pub fn paragraph_step_prev(&self, mark: &mut ParagraphMark) -> (moved: bool)
        requires
            self.paragraphs_fit(),
        ensures
            match paragraph_before(self.text(), self.object_table(), self.segment_table(), *old(mark)) {
                Some(m) => moved && *final(mark) == m,
                None => !moved && *final(mark) == *old(mark),
            },
    {
        let ghost t = self.text();
        let ghost o = self.object_table();
        let ghost s = self.segment_table();
        let segs = self.page_paragraphs(mark.page);
        if let Some(i) = segment_index(&segs, mark.start_line) {
            if let Some(k) = self.last_stop(mark.page, &segs, i) {
                *mark = ParagraphMark { page: mark.page, start_line: segs[k].0, end_line: segs[k].1 };
                return true;
            }
        }
        let n = self.pages.len();
        let mut p: usize = if mark.page > n {
            proof {
                lemma_stop_before_past_end(t, o, s, mark.page as int);
            }
            n
        } else {
            mark.page
        };
        while p > 0
            invariant
                p <= n == t.len(),
                t == self.text(),
                o == self.object_table(),
                s == self.segment_table(),
                self.paragraphs_fit(),
                paragraph_before(t, o, s, *old(mark)) == last_stop_before_page(
                    t,
                    o,
                    s,
                    old(mark).page as int,
                ),
                last_stop_before_page(t, o, s, old(mark).page as int) == last_stop_before_page(
                    t,
                    o,
                    s,
                    p as int,
                ),
                *mark == *old(mark),
            decreases p,
        {
            let segs = self.page_paragraphs(p - 1);
            if self.page_line_count(p - 1) > 0 {
                if let Some(k) = self.last_stop(p - 1, &segs, segs.len()) {
                    *mark = ParagraphMark { page: p - 1, start_line: segs[k].0, end_line: segs[k].1 };
                    return true;
                }
            }
            p = p - 1;
        }
        false
    }
}

} // verus!
