//! Sentence motion over a document's text: where a sentence ends, how far
//! one runs, and where the next or previous one starts.
//!
//! A sentence ends at a maximal group of terminators (`. ! ?`) and the
//! closing quotes and brackets after them — unless the stop sits inside a
//! number (`3.14`), belongs to an abbreviation that no new sentence follows
//! (`e.g. the`), or is part of a link. A colon that ends its line ends a
//! sentence too. Headings and display equations are one sentence each, a
//! list item's marker is not a sentence of its own, and sentences never run
//! across a page or out of a table, image or other region.

use vstd::prelude::*;

use crate::caret::{
    blank_cell, is_line_final_colon, is_sentence_terminator, is_sentence_trailer,
    lemma_object_at, lemma_object_at_first, line_final_colon, opens_sentence, strip_stop, object_at, object_index_at,
    terminator, trailer, Caret, Cell, ContentObject, ObjectId, SentenceMark, WordClass,
};
use crate::text::{lowercase_chars, spec_is_whitespace};
use crate::words::{
    abbreviation_span, abbreviation_stop, bounded, cell_chars, cells_of, following_chars,
    lemma_known_abbreviations, token_span_at, trim_wrappers_back, trim_wrappers_front, char_of, class_at, content_page_before,
    content_page_from, lemma_next_pos_advances, lemma_prev_pos_retreats, less_one, line_cells,
    lines_of, link_at_spec, next_on_page, next_pos, number_interior_at, prev_pos, well_spaced, within_span,
    DocumentText,
};

verus! {

impl DocumentText {
    /// The objects of each page.
    pub open spec fn object_table(&self) -> Seq<Seq<ContentObject>> {
        self.objects@.map_values(|v: Vec<ContentObject>| v@)
    }
}

/// The objects of `page`; none for a page the table does not reach.
pub open spec fn page_objects(o: Seq<Seq<ContentObject>>, page: int) -> Seq<ContentObject> {
    if 0 <= page < o.len() {
        o[page]
    } else {
        Seq::empty()
    }
}

/// The region holding `line` of `page`: the first object of the page that
/// holds it, if any.
pub open spec fn region(o: Seq<Seq<ContentObject>>, page: int, line: int) -> Option<ContentObject> {
    match object_at(page_objects(o, page), line) {
        Some(i) => Some(page_objects(o, page)[i]),
        None => None,
    }
}

/// Whether `c` lies in a region that is one sentence whatever punctuation it
/// holds: a heading or an equation.
pub open spec fn in_one_sentence_region(o: Seq<Seq<ContentObject>>, c: Caret) -> bool {
    match region(o, c.page as int, c.line as int) {
        Some(ob) => ob.kind.one_sentence,
        None => false,
    }
}

/// Whether `c` lies in a footnote.
pub open spec fn in_footnote_region(o: Seq<Seq<ContentObject>>, c: Caret) -> bool {
    match region(o, c.page as int, c.line as int) {
        Some(ob) => ob.kind.footnote,
        None => false,
    }
}

/// The first position from `i` on that holds no blank cell, or the end.
pub open spec fn first_filled(l: Seq<Cell>, i: int) -> int
    decreases l.len() - i,
{
    if i >= l.len() || i < 0 {
        if i < 0 {
            0
        } else {
            i
        }
    } else if !blank_cell(l[i]) {
        i
    } else {
        first_filled(l, i + 1)
    }
}

/// The first position from `i` on that holds a blank cell, or the end.
pub open spec fn first_blank(l: Seq<Cell>, i: int) -> int
    decreases l.len() - i,
{
    if i >= l.len() || i < 0 {
        if i < 0 {
            0
        } else {
            i
        }
    } else if blank_cell(l[i]) {
        i
    } else {
        first_blank(l, i + 1)
    }
}

/// Where the marker of a list item on line `l` ends: past the line's first
/// token. A line of nothing but blanks has its marker end at its start.
pub open spec fn marker_end(l: Seq<Cell>) -> int {
    let first = first_filled(l, 0);
    if first >= l.len() {
        first_blank(l, 0)
    } else {
        first_blank(l, first)
    }
}

/// Whether `c` falls within the marker that opens a list item: the first
/// token of the item's first line.
pub open spec fn in_list_marker(t: Seq<Seq<Seq<Cell>>>, o: Seq<Seq<ContentObject>>, c: Caret) -> bool {
    match region(o, c.page as int, c.line as int) {
        Some(ob) => ob.kind.list_item && c.line == ob.start_line && c.cell < marker_end(
            line_cells(t, c.page as int, c.line as int),
        ),
        None => false,
    }
}

/// Whether the link around `c`, if any, holds it.
pub open spec fn inside_link(t: Seq<Seq<Seq<Cell>>>, c: Caret) -> bool {
    match link_at_spec(t, c) {
        Some(span) => within_span(c, span),
        None => false,
    }
}

/// The position one cell back, if it is on the same page.
pub open spec fn prev_on_page(t: Seq<Seq<Seq<Cell>>>, c: Caret) -> Option<Caret> {
    match prev_pos(t, c) {
        Some(p) => if p.page == c.page {
            Some(p)
        } else {
            None
        },
        None => None,
    }
}

/// Whether the run of trailers ending at `c` is preceded by a terminator on
/// the same page.
pub open spec fn terminated_before(t: Seq<Seq<Seq<Cell>>>, c: Caret) -> bool
    decreases c.page, c.line, c.cell,
{
    match prev_on_page(t, c) {
        None => false,
        Some(p) => match char_of(t, p) {
            Some(ch) => if terminator(ch) {
                true
            } else if trailer(ch) {
                proof {
                    lemma_prev_pos_retreats(t, c);
                }
                terminated_before(t, p)
            } else {
                false
            },
            None => false,
        },
    }
}

/// Whether the character at a position ends or closes a sentence.
pub open spec fn closes_sentence(ch: Option<char>) -> bool {
    match ch {
        Some(x) => terminator(x) || trailer(x),
        None => false,
    }
}

/// Whether `c` is the last cell of a sentence: the end of a maximal group of
/// terminators and trailers holding at least one terminator, or a colon
/// that ends its line.
pub open spec fn sentence_boundary(
    t: Seq<Seq<Seq<Cell>>>,
    o: Seq<Seq<ContentObject>>,
    c: Caret,
) -> bool {
    if in_one_sentence_region(o, c) || in_list_marker(t, o, c) {
        false
    } else if char_of(t, c) == Some(':') && line_final_colon(
        line_cells(t, c.page as int, c.line as int),
        c.cell as int,
    ) && !inside_link(t, c) {
        true
    } else if !closes_sentence(char_of(t, c)) {
        false
    } else if number_interior_at(t, c, false) || abbreviation_stop(t, c) || inside_link(t, c) {
        false
    } else if (match next_on_page(t, c) {
        Some(n) => closes_sentence(char_of(t, n)),
        None => false,
    }) {
        false
    } else if terminator(char_of(t, c).unwrap()) {
        true
    } else {
        terminated_before(t, c)
    }
}

/// The first filled position is within the line, or at its end.
proof fn lemma_first_filled_bounds(l: Seq<Cell>, i: int)
    requires
        0 <= i,
    ensures
        i <= first_filled(l, i),
        i <= l.len() ==> first_filled(l, i) <= l.len(),
    decreases l.len() - i,
{
    if i < l.len() && blank_cell(l[i]) {
        lemma_first_filled_bounds(l, i + 1);
    }
}

/// The first blank position is within the line, or at its end.
proof fn lemma_first_blank_bounds(l: Seq<Cell>, i: int)
    requires
        0 <= i,
    ensures
        i <= first_blank(l, i),
        i <= l.len() ==> first_blank(l, i) <= l.len(),
    decreases l.len() - i,
{
    if i < l.len() && !blank_cell(l[i]) {
        lemma_first_blank_bounds(l, i + 1);
    }
}

impl DocumentText {
    /// The region holding `line` of `page`: a table, an image, a heading, an
    /// equation, a list item or a footnote.
    pub fn region_at(&self, page: usize, line: usize) -> (r: Option<ContentObject>)
        ensures
            r == region(self.object_table(), page as int, line as int),
    {
        if page >= self.objects.len() {
            proof {
                assert(page_objects(self.object_table(), page as int) == Seq::<ContentObject>::empty());
                assert(object_at(Seq::<ContentObject>::empty(), line as int) is None);
            }
            return None;
        }
        let objects = &self.objects[page];
        assert(objects@ == page_objects(self.object_table(), page as int));
        proof {
            lemma_object_at(objects@, line as int);
        }
        match object_index_at(objects.as_slice(), line) {
            Some(i) => {
                proof {
                    lemma_object_at_first(objects@, line as int, i as int);
                }
                Some(objects[i])
            },
            None => {
                proof {
                    if object_at(objects@, line as int) is Some {
                        let w = object_at(objects@, line as int).unwrap();
                        assert(crate::caret::holds_line(objects@[w], line as int));
                    }
                }
                None
            },
        }
    }

    /// Identity of the region a position sits in.
    pub fn region_id_at(&self, at: Caret) -> (r: Option<ObjectId>)
        ensures
            r == match region(self.object_table(), at.page as int, at.line as int) {
                Some(ob) => Some(ObjectId { page: at.page, start_line: ob.start_line }),
                None => None,
            },
    {
        match self.region_at(at.page, at.line) {
            Some(ob) => Some(ObjectId { page: at.page, start_line: ob.start_line }),
            None => None,
        }
    }

    /// Whether `at` sits inside a region that is one sentence whatever
    /// punctuation it contains — a heading or an equation.
    pub fn in_single_sentence_region(&self, at: Caret) -> (r: bool)
        ensures
            r == in_one_sentence_region(self.object_table(), at),
    {
        match self.region_at(at.page, at.line) {
            Some(ob) => ob.kind.one_sentence,
            None => false,
        }
    }

    /// Whether `at` sits inside a footnote, which the search for the next or
    /// previous sentence passes over (a caret already inside one still walks
    /// its sentences).
    pub fn in_footnote(&self, at: Caret) -> (r: bool)
        ensures
            r == in_footnote_region(self.object_table(), at),
    {
        match self.region_at(at.page, at.line) {
            Some(ob) => ob.kind.footnote,
            None => false,
        }
    }

    /// Whether `at` falls within the marker that opens a list item: exactly
    /// the first token of the item's first line.
    pub fn in_list_marker(&self, at: Caret) -> (r: bool)
        ensures
            r == in_list_marker(self.text(), self.object_table(), at),
    {
        let starts_item = match self.region_at(at.page, at.line) {
            Some(ob) => ob.kind.list_item && at.line == ob.start_line,
            None => false,
        };
        if !starts_item {
            return false;
        }
        let cells = match self.line(at.page, at.line) {
            Some(cells) => cells,
            None => return false,
        };
        let ghost l = cells@;
        let n = cells.len();
        let mut first: usize = 0;
        while first < n && crate::words::is_blank_cell(&cells[first])
            invariant
                l == cells@,
                n == l.len(),
                first <= n,
                first_filled(l, 0) == first_filled(l, first as int),
            decreases n - first,
        {
            first = first + 1;
        }
        if first >= n {
            first = 0;
            assert(first_blank(l, 0) == first_blank(l, first as int));
        }
        let ghost from = first;
        let mut past: usize = first;
        while past < n && !crate::words::is_blank_cell(&cells[past])
            invariant
                l == cells@,
                n == l.len(),
                from <= past <= n,
                first_blank(l, from as int) == first_blank(l, past as int),
            decreases n - past,
        {
            past = past + 1;
        }
        at.cell < past
    }
}

impl DocumentText {
    /// The position one cell back, if it is on the same page.
    pub fn prev_cell_same_page(&self, c: Caret) -> (r: Option<Caret>)
        ensures
            r == prev_on_page(self.text(), c),
    {
        match self.prev_cell(c) {
            Some(p) => if p.page == c.page {
                Some(p)
            } else {
                None
            },
            None => None,
        }
    }

    /// Whether the character at `c` ends or closes a sentence.
    fn closes_at(&self, c: Caret) -> (r: bool)
        ensures
            r == closes_sentence(char_of(self.text(), c)),
    {
        match self.char_at(c) {
            Some(ch) => is_sentence_terminator(ch) || is_sentence_trailer(ch),
            None => false,
        }
    }

    /// Whether `c` is the last cell of a sentence-ending group — a maximal run
    /// of terminators (`. ! ?`) plus any trailing closing quotes or brackets,
    /// holding at least one terminator — or a colon that ends its line.
    pub fn sentence_boundary_after(&self, c: Caret) -> (r: bool)
        requires
            well_spaced(self.text()),
        ensures
            r == sentence_boundary(self.text(), self.object_table(), c),
    {
        // A heading or an equation is exactly one sentence, whatever
        // punctuation it contains, and a list item's marker is no sentence.
        if self.in_single_sentence_region(c) || self.in_list_marker(c) {
            return false;
        }
        // A colon that ends its line (trailing spaces only) ends a sentence.
        if self.char_at(c) == Some(':') {
            let colon_ends_line = match self.line(c.page, c.line) {
                Some(cells) => is_line_final_colon(cells.as_slice(), c.cell),
                None => {
                    assert(!line_final_colon(Seq::<crate::caret::Cell>::empty(), c.cell as int));
                    false
                },
            };
            if colon_ends_line && !self.is_inside_link(c) {
                return true;
            }
        }
        let here = match self.char_at(c) {
            Some(ch) => {
                if !(is_sentence_terminator(ch) || is_sentence_trailer(ch)) {
                    return false;
                }
                ch
            },
            None => return false,
        };
        // A stop inside a number, an abbreviation that no new sentence
        // follows, or a link ends nothing.
        if self.is_number_interior_tight(c) || self.is_abbreviation_stop(c) || self.is_inside_link(
            c,
        ) {
            return false;
        }
        // The group must end at `c`: the next cell cannot continue it.
        match self.next_cell_same_page(c) {
            Some(next) => {
                if self.closes_at(next) {
                    return false;
                }
            },
            None => {},
        }
        if is_sentence_terminator(here) {
            return true;
        }
        // `here` is a trailer: the group is a boundary only if a terminator
        // precedes it through the run of terminators and trailers.
        let mut cur = c;
        loop
            invariant
                terminated_before(self.text(), cur) == terminated_before(self.text(), c),
                sentence_boundary(self.text(), self.object_table(), c) == terminated_before(
                    self.text(),
                    c,
                ),
            decreases cur.page, cur.line, cur.cell,
        {
            let prev = match self.prev_cell_same_page(cur) {
                Some(prev) => prev,
                None => return false,
            };
            match self.char_at(prev) {
                Some(ch) => {
                    if is_sentence_terminator(ch) {
                        return true;
                    }
                    if !is_sentence_trailer(ch) {
                        return false;
                    }
                    proof {
                        lemma_prev_pos_retreats(self.text(), cur);
                    }
                    cur = prev;
                },
                None => return false,
            }
        }
    }
}

/// The identity of the region `at` lies in.
pub open spec fn region_id(o: Seq<Seq<ContentObject>>, at: Caret) -> Option<ObjectId> {
    match region(o, at.page as int, at.line as int) {
        Some(ob) => Some(ObjectId { page: at.page, start_line: ob.start_line }),
        None => None,
    }
}

/// The position one cell forward, if it is on the same page and in the same
/// region.
pub open spec fn next_in_region(t: Seq<Seq<Seq<Cell>>>, o: Seq<Seq<ContentObject>>, c: Caret) -> Option<
    Caret,
> {
    match next_on_page(t, c) {
        Some(n) => if region_id(o, c) == region_id(o, n) {
            Some(n)
        } else {
            None
        },
        None => None,
    }
}

/// The position one cell back, if it is on the same page and in the same
/// region.
pub open spec fn prev_in_region(t: Seq<Seq<Seq<Cell>>>, o: Seq<Seq<ContentObject>>, c: Caret) -> Option<
    Caret,
> {
    match prev_on_page(t, c) {
        Some(p) => if region_id(o, c) == region_id(o, p) {
            Some(p)
        } else {
            None
        },
        None => None,
    }
}

/// Whether the cell at `c` is a place a sentence can start: a cell that is
/// not white space.
pub open spec fn filled_at(t: Seq<Seq<Seq<Cell>>>, c: Caret) -> bool {
    match class_at(t, c) {
        Some(class) => !(class is Whitespace),
        None => false,
    }
}

/// The first position from `c` on, on its page, that is not white space;
/// the last position of the page when there is none.
pub open spec fn skip_blanks(t: Seq<Seq<Seq<Cell>>>, c: Caret) -> Caret
    decreases t.len() - c.page, lines_of(t, c.page as int) - c.line, cells_of(
        t,
        c.page as int,
        c.line as int,
    ) - c.cell,
    when bounded(t)
{
    if filled_at(t, c) {
        c
    } else {
        match next_on_page(t, c) {
            Some(n) => {
                proof {
                    lemma_next_pos_advances(t, c);
                }
                skip_blanks(t, n)
            },
            None => c,
        }
    }
}

/// The last cell of the sentence holding `c`: forward to a boundary, the
/// edge of the region, or the end of the page.
pub open spec fn sentence_end(t: Seq<Seq<Seq<Cell>>>, o: Seq<Seq<ContentObject>>, c: Caret) -> Caret
    decreases t.len() - c.page, lines_of(t, c.page as int) - c.line, cells_of(
        t,
        c.page as int,
        c.line as int,
    ) - c.cell,
    when bounded(t)
{
    if sentence_boundary(t, o, c) {
        c
    } else {
        match next_in_region(t, o, c) {
            Some(n) => {
                proof {
                    lemma_next_pos_advances(t, c);
                }
                sentence_end(t, o, n)
            },
            None => c,
        }
    }
}

/// Walking back from `c` to just after the previous boundary, the edge of
/// the region, or the start of the page.
pub open spec fn after_previous_boundary(
    t: Seq<Seq<Seq<Cell>>>,
    o: Seq<Seq<ContentObject>>,
    c: Caret,
) -> Caret
    decreases c.page, c.line, c.cell,
{
    match prev_in_region(t, o, c) {
        None => c,
        Some(p) => if sentence_boundary(t, o, p) {
            c
        } else {
            proof {
                lemma_prev_pos_retreats(t, c);
            }
            after_previous_boundary(t, o, p)
        },
    }
}

/// The first cell of the sentence holding `c`, leading white space skipped.
pub open spec fn sentence_start(t: Seq<Seq<Seq<Cell>>>, o: Seq<Seq<ContentObject>>, c: Caret) -> Caret {
    skip_blanks(t, after_previous_boundary(t, o, c))
}

/// The sentence holding `c`, as a mark.
pub open spec fn sentence_mark(t: Seq<Seq<Seq<Cell>>>, o: Seq<Seq<ContentObject>>, c: Caret) -> SentenceMark {
    SentenceMark {
        page: c.page,
        start_line: sentence_start(t, o, c).line,
        start_cell: sentence_start(t, o, c).cell,
        end_line: sentence_end(t, o, c).line,
        end_cell: sentence_end(t, o, c).cell,
    }
}

/// The first position from `c` on, on its page, where a sentence search
/// stops: a cell that is neither white space nor in a footnote.
pub open spec fn search_forward(t: Seq<Seq<Seq<Cell>>>, o: Seq<Seq<ContentObject>>, c: Caret) -> Option<
    Caret,
>
    decreases t.len() - c.page, lines_of(t, c.page as int) - c.line, cells_of(
        t,
        c.page as int,
        c.line as int,
    ) - c.cell,
    when bounded(t)
{
    if !in_footnote_region(o, c) && filled_at(t, c) {
        Some(c)
    } else {
        match next_on_page(t, c) {
            None => None,
            Some(n) => {
                proof {
                    lemma_next_pos_advances(t, c);
                }
                search_forward(t, o, n)
            },
        }
    }
}

/// The first position from `c` back, on its page, where a sentence search
/// stops.
pub open spec fn search_back(t: Seq<Seq<Seq<Cell>>>, o: Seq<Seq<ContentObject>>, c: Caret) -> Option<
    Caret,
>
    decreases c.page, c.line, c.cell,
{
    if !in_footnote_region(o, c) && filled_at(t, c) {
        Some(c)
    } else {
        match prev_on_page(t, c) {
            None => None,
            Some(p) => {
                proof {
                    lemma_prev_pos_retreats(t, c);
                }
                search_back(t, o, p)
            },
        }
    }
}

/// The start of the first sentence of `page`.
pub open spec fn first_sentence_start(t: Seq<Seq<Seq<Cell>>>, o: Seq<Seq<ContentObject>>, page: usize) -> Option<
    Caret,
> {
    search_forward(t, o, Caret { page, line: 0, cell: 0 })
}

/// The start of the sentence after the one holding `c`, on its page.
pub open spec fn next_sentence_start(t: Seq<Seq<Seq<Cell>>>, o: Seq<Seq<ContentObject>>, c: Caret) -> Option<
    Caret,
> {
    match next_on_page(t, sentence_end(t, o, c)) {
        None => None,
        Some(n) => search_forward(t, o, n),
    }
}

/// The start of the sentence before the one holding `c`, on its page.
pub open spec fn prev_sentence_start(t: Seq<Seq<Seq<Cell>>>, o: Seq<Seq<ContentObject>>, c: Caret) -> Option<
    Caret,
> {
    match prev_on_page(t, sentence_start(t, o, c)) {
        None => None,
        Some(p) => match search_back(t, o, p) {
            None => None,
            Some(q) => Some(sentence_start(t, o, q)),
        },
    }
}

/// The first cell of a sentence mark.
pub open spec fn mark_start(m: SentenceMark) -> Caret {
    Caret { page: m.page, line: m.start_line, cell: m.start_cell }
}

/// Where `s` takes a sentence mark: the next sentence of the page, or the
/// first sentence of the next page with content.
pub open spec fn sentence_after(t: Seq<Seq<Seq<Cell>>>, o: Seq<Seq<ContentObject>>, m: SentenceMark) -> Option<
    SentenceMark,
> {
    match next_sentence_start(t, o, mark_start(m)) {
        Some(n) => Some(sentence_mark(t, o, n)),
        None => match content_page_from(t, m.page + 1) {
            Some(p) => match first_sentence_start(t, o, p as usize) {
                Some(s) => Some(sentence_mark(t, o, s)),
                None => None,
            },
            None => None,
        },
    }
}

/// Where the backward sentence motion takes a mark: the previous sentence of
/// the page, or the last sentence of the previous page with content.
pub open spec fn sentence_before(t: Seq<Seq<Seq<Cell>>>, o: Seq<Seq<ContentObject>>, m: SentenceMark) -> Option<
    SentenceMark,
> {
    match prev_sentence_start(t, o, mark_start(m)) {
        Some(p) => Some(sentence_mark(t, o, p)),
        None => match content_page_before(t, m.page as int) {
            Some(pg) => {
                let line = less_one(lines_of(t, pg));
                let cell = less_one(cells_of(t, pg, line));
                Some(
                    sentence_mark(
                        t,
                        o,
                        Caret { page: pg as usize, line: line as usize, cell: cell as usize },
                    ),
                )
            },
            None => None,
        },
    }
}

impl DocumentText {
    /// Whether two positions lie in the same region — both outside every
    /// object, or both inside the same one.
    pub fn same_region(&self, a: Caret, b: Caret) -> (r: bool)
        ensures
            r == (region_id(self.object_table(), a) == region_id(self.object_table(), b)),
    {
        self.region_id_at(a) == self.region_id_at(b)
    }

    /// The next position on the same page, stopping at the edge of a table,
    /// an image or another region, so a sentence never runs through one.
    pub fn next_cell_in_region(&self, c: Caret) -> (r: Option<Caret>)
        ensures
            r == next_in_region(self.text(), self.object_table(), c),
    {
        match self.next_cell_same_page(c) {
            Some(n) => if self.same_region(c, n) {
                Some(n)
            } else {
                None
            },
            None => None,
        }
    }

    /// The previous position on the same page and in the same region.
    pub fn prev_cell_in_region(&self, c: Caret) -> (r: Option<Caret>)
        ensures
            r == prev_in_region(self.text(), self.object_table(), c),
    {
        match self.prev_cell_same_page(c) {
            Some(p) => if self.same_region(c, p) {
                Some(p)
            } else {
                None
            },
            None => None,
        }
    }

    /// Whether the cell at `c` is not white space.
    fn filled(&self, c: Caret) -> (r: bool)
        ensures
            r == filled_at(self.text(), c),
    {
        match self.word_class_at(c) {
            Some(WordClass::Whitespace) => false,
            Some(_) => true,
            None => false,
        }
    }

    /// Advance over white space and absent cells to the first real content
    /// cell at or after `from`, staying on the page.
    pub fn skip_whitespace_forward(&self, from: Caret) -> (r: Caret)
        ensures
            r == skip_blanks(self.text(), from),
    {
        proof {
            self.lemma_bounded();
        }
        let mut cur = from;
        loop
            invariant
                bounded(self.text()),
                skip_blanks(self.text(), cur) == skip_blanks(self.text(), from),
            decreases self.text().len() - cur.page, lines_of(self.text(), cur.page as int)
                - cur.line, cells_of(self.text(), cur.page as int, cur.line as int) - cur.cell,
        {
            if self.filled(cur) {
                return cur;
            }
            proof {
                lemma_next_pos_advances(self.text(), cur);
            }
            cur = match self.next_cell_same_page(cur) {
                Some(next) => next,
                None => return cur,
            };
        }
    }

    /// Last cell of the sentence containing `from`: forward to a boundary,
    /// the edge of the region, or the end of the page.
    pub fn sentence_run_end(&self, from: Caret) -> (r: Caret)
        requires
            well_spaced(self.text()),
        ensures
            r == sentence_end(self.text(), self.object_table(), from),
    {
        proof {
            self.lemma_bounded();
        }
        let mut cur = from;
        loop
            invariant
                bounded(self.text()),
                well_spaced(self.text()),
                sentence_end(self.text(), self.object_table(), cur) == sentence_end(
                    self.text(),
                    self.object_table(),
                    from,
                ),
            decreases self.text().len() - cur.page, lines_of(self.text(), cur.page as int)
                - cur.line, cells_of(self.text(), cur.page as int, cur.line as int) - cur.cell,
        {
            if self.sentence_boundary_after(cur) {
                return cur;
            }
            proof {
                lemma_next_pos_advances(self.text(), cur);
            }
            cur = match self.next_cell_in_region(cur) {
                Some(next) => next,
                None => return cur,
            };
        }
    }

    /// First cell of the sentence containing `from`: back to just after the
    /// previous boundary, then past leading white space.
    pub fn sentence_run_start(&self, from: Caret) -> (r: Caret)
        requires
            well_spaced(self.text()),
        ensures
            r == sentence_start(self.text(), self.object_table(), from),
    {
        let mut cur = from;
        loop
            invariant
                well_spaced(self.text()),
                after_previous_boundary(self.text(), self.object_table(), cur)
                    == after_previous_boundary(self.text(), self.object_table(), from),
            ensures
                after_previous_boundary(self.text(), self.object_table(), from) == cur,
            decreases cur.page, cur.line, cur.cell,
        {
            let prev = match self.prev_cell_in_region(cur) {
                Some(prev) => prev,
                None => break,
            };
            if self.sentence_boundary_after(prev) {
                break;
            }
            proof {
                lemma_prev_pos_retreats(self.text(), cur);
            }
            cur = prev;
        }
        self.skip_whitespace_forward(cur)
    }

    /// The sentence containing `caret`, as a mark.
    pub fn sentence_mark_from_caret(&self, caret: Caret) -> (m: SentenceMark)
        requires
            well_spaced(self.text()),
        ensures
            m == sentence_mark(self.text(), self.object_table(), caret),
    {
        let start = self.sentence_run_start(caret);
        let end = self.sentence_run_end(caret);
        SentenceMark {
            page: caret.page,
            start_line: start.line,
            start_cell: start.cell,
            end_line: end.line,
            end_cell: end.cell,
        }
    }

    /// The first position from `from` on, on its page, that is neither white
    /// space nor in a footnote.
    fn search_forward_from(&self, from: Caret) -> (r: Option<Caret>)
        ensures
            r == search_forward(self.text(), self.object_table(), from),
    {
        proof {
            self.lemma_bounded();
        }
        let mut cur = from;
        loop
            invariant
                bounded(self.text()),
                search_forward(self.text(), self.object_table(), cur) == search_forward(
                    self.text(),
                    self.object_table(),
                    from,
                ),
            decreases self.text().len() - cur.page, lines_of(self.text(), cur.page as int)
                - cur.line, cells_of(self.text(), cur.page as int, cur.line as int) - cur.cell,
        {
            if !self.in_footnote(cur) && self.filled(cur) {
                return Some(cur);
            }
            proof {
                lemma_next_pos_advances(self.text(), cur);
            }
            cur = match self.next_cell_same_page(cur) {
                Some(next) => next,
                None => return None,
            };
        }
    }

    /// The first position from `from` back, on its page, that is neither
    /// white space nor in a footnote.
    fn search_back_from(&self, from: Caret) -> (r: Option<Caret>)
        ensures
            r == search_back(self.text(), self.object_table(), from),
    {
        let mut cur = from;
        loop
            invariant
                search_back(self.text(), self.object_table(), cur) == search_back(
                    self.text(),
                    self.object_table(),
                    from,
                ),
            decreases cur.page, cur.line, cur.cell,
        {
            if !self.in_footnote(cur) && self.filled(cur) {
                return Some(cur);
            }
            proof {
                lemma_prev_pos_retreats(self.text(), cur);
            }
            cur = match self.prev_cell_same_page(cur) {
                Some(prev) => prev,
                None => return None,
            };
        }
    }

    /// First content cell of `page`, past leading white space and footnotes.
    pub fn first_sentence_start_on_page(&self, page: usize) -> (r: Option<Caret>)
        ensures
            r == first_sentence_start(self.text(), self.object_table(), page),
    {
        self.search_forward_from(Caret { page, line: 0, cell: 0 })
    }

    /// Start cell of the next sentence on the same page, or `None` at the
    /// page edge.
    pub fn step_next_sentence_start(&self, caret: Caret) -> (r: Option<Caret>)
        requires
            well_spaced(self.text()),
        ensures
            r == next_sentence_start(self.text(), self.object_table(), caret),
    {
        let end = self.sentence_run_end(caret);
        match self.next_cell_same_page(end) {
            Some(next) => self.search_forward_from(next),
            None => None,
        }
    }

    /// Start cell of the previous sentence on the same page, or `None` at the
    /// page start.
    pub fn step_prev_sentence_start(&self, caret: Caret) -> (r: Option<Caret>)
        requires
            well_spaced(self.text()),
        ensures
            r == prev_sentence_start(self.text(), self.object_table(), caret),
    {
        let start = self.sentence_run_start(caret);
        let prev = match self.prev_cell_same_page(start) {
            Some(prev) => prev,
            None => return None,
        };
        match self.search_back_from(prev) {
            Some(target) => Some(self.sentence_run_start(target)),
            None => None,
        }
    }

    /// `s`: move the mark to the next sentence, crossing to the first
    /// sentence of the next page with content at the end of a page; `false`,
    /// leaving the mark alone, when there is none.
    pub fn sentence_step_next(&self, mark: &mut SentenceMark) -> (moved: bool)
        requires
            well_spaced(self.text()),
        ensures
            match sentence_after(self.text(), self.object_table(), *old(mark)) {
                Some(m) => moved && *final(mark) == m,
                None => !moved && *final(mark) == *old(mark),
            },
    {
        let caret = Caret { page: mark.page, line: mark.start_line, cell: mark.start_cell };
        if let Some(next) = self.step_next_sentence_start(caret) {
            *mark = self.sentence_mark_from_caret(next);
            return true;
        }
        if let Some(page) = self.next_content_page(mark.page) {
            if let Some(start) = self.first_sentence_start_on_page(page) {
                *mark = self.sentence_mark_from_caret(start);
                return true;
            }
        }
        false
    }

    /// The backward sentence motion: move the mark to the previous sentence,
    /// crossing to the last sentence of the previous page with content at the
    /// start of a page; `false`, leaving the mark alone, when there is none.
    pub fn sentence_step_prev(&self, mark: &mut SentenceMark) -> (moved: bool)
        requires
            well_spaced(self.text()),
        ensures
            match sentence_before(self.text(), self.object_table(), *old(mark)) {
                Some(m) => moved && *final(mark) == m,
                None => !moved && *final(mark) == *old(mark),
            },
    {
        let caret = Caret { page: mark.page, line: mark.start_line, cell: mark.start_cell };
        if let Some(prev) = self.step_prev_sentence_start(caret) {
            *mark = self.sentence_mark_from_caret(prev);
            return true;
        }
        if let Some(page) = self.prev_content_page(mark.page) {
            let last_line = self.page_line_count(page).saturating_sub(1);
            let last_cell = self.line_cell_count(page, last_line).saturating_sub(1);
            let from = Caret { page, line: last_line, cell: last_cell };
            *mark = self.sentence_mark_from_caret(from);
            return true;
        }
        false
    }
}

/// A sentence runs forward from where it is expanded: its last cell is that
/// position or a later one of the same page, and it ends at a boundary or
/// where its region or its page ends.
pub proof fn lemma_sentence_end(t: Seq<Seq<Seq<Cell>>>, o: Seq<Seq<ContentObject>>, c: Caret)
    requires
        bounded(t),
    ensures
        sentence_end(t, o, c) == c || (crate::words::precedes(c, sentence_end(t, o, c))
            && sentence_end(t, o, c).page == c.page),
        sentence_boundary(t, o, sentence_end(t, o, c)) || next_in_region(
            t,
            o,
            sentence_end(t, o, c),
        ) is None,
    decreases t.len() - c.page, lines_of(t, c.page as int) - c.line, cells_of(
        t,
        c.page as int,
        c.line as int,
    ) - c.cell,
{
    if !sentence_boundary(t, o, c) {
        match next_in_region(t, o, c) {
            Some(n) => {
                lemma_next_pos_advances(t, c);
                lemma_sentence_end(t, o, n);
            },
            None => {},
        }
    }
}

/// The forward sentence search stops only on a filled cell outside every
/// footnote, on the page it started on.
pub proof fn lemma_search_forward_stops_outside_footnotes(
    t: Seq<Seq<Seq<Cell>>>,
    o: Seq<Seq<ContentObject>>,
    c: Caret,
)
    requires
        bounded(t),
    ensures
        match search_forward(t, o, c) {
            Some(x) => !in_footnote_region(o, x) && filled_at(t, x) && x.page == c.page,
            None => true,
        },
    decreases t.len() - c.page, lines_of(t, c.page as int) - c.line, cells_of(
        t,
        c.page as int,
        c.line as int,
    ) - c.cell,
{
    if !(!in_footnote_region(o, c) && filled_at(t, c)) {
        match next_on_page(t, c) {
            Some(n) => {
                lemma_next_pos_advances(t, c);
                lemma_search_forward_stops_outside_footnotes(t, o, n);
            },
            None => {},
        }
    }
}

/// `s` reading on through a page never lands in a footnote: the start of
/// the next sentence, and the first sentence of a page, lie outside every
/// footnote.
pub proof fn lemma_sentence_search_skips_footnotes(
    t: Seq<Seq<Seq<Cell>>>,
    o: Seq<Seq<ContentObject>>,
    c: Caret,
    page: usize,
)
    requires
        bounded(t),
    ensures
        match next_sentence_start(t, o, c) {
            Some(x) => !in_footnote_region(o, x),
            None => true,
        },
        match first_sentence_start(t, o, page) {
            Some(x) => !in_footnote_region(o, x),
            None => true,
        },
{
    match next_on_page(t, sentence_end(t, o, c)) {
        Some(n) => lemma_search_forward_stops_outside_footnotes(t, o, n),
        None => {},
    }
    lemma_search_forward_stops_outside_footnotes(t, o, Caret { page, line: 0, cell: 0 });
}


/// A closing quote or bracket (`"` `'` `)` `]` `}` `»` `”` `’`) right after a
/// terminator (`.` `!` `?`) belongs to the sentence it closes: when white
/// space or the end of the page follows the closer, the sentence ends at the
/// closer and not at the terminator before it. This holds outside headings,
/// equations and list markers, and where the closer is not part of a number,
/// an abbreviation or a link.
pub proof fn lemma_closer_ends_the_sentence(
    t: Seq<Seq<Seq<Cell>>>,
    o: Seq<Seq<ContentObject>>,
    c: Caret,
    stop: char,
    closer: char,
)
    requires
        0 < c.cell < cells_of(t, c.page as int, c.line as int),
        char_of(t, Caret { cell: (c.cell - 1) as usize, ..c }) == Some(stop),
        stop == '.' || stop == '!' || stop == '?',
        char_of(t, c) == Some(closer),
        closer == '"' || closer == '\'' || closer == ')' || closer == ']' || closer == '}' || closer == '»' || closer == '”' || closer == '’',
        match next_on_page(t, c) {
            None => true,
            Some(n) => char_of(t, n) matches Some(x) && spec_is_whitespace(x),
        },
        !in_one_sentence_region(o, c),
        !in_list_marker(t, o, c),
        !number_interior_at(t, c, false),
        !abbreviation_stop(t, c),
        !inside_link(t, c),
    ensures
        sentence_boundary(t, o, c),
        !sentence_boundary(t, o, Caret { cell: (c.cell - 1) as usize, ..c }),
{
    let p = Caret { cell: (c.cell - 1) as usize, ..c };
    assert(next_pos(t, p) == Some(c));
    assert(next_on_page(t, p) == Some(c));
    assert(prev_pos(t, c) == Some(p));
    assert(prev_on_page(t, c) == Some(p));
    assert(terminated_before(t, c));
    if let Some(n) = next_on_page(t, c) {
        assert(!closes_sentence(char_of(t, n)));
    }
}

/// Only a terminator (`.` `!` `?`), one of the closers `"` `'` `)` `]` `}`
/// `»` `”` `’`, or a colon that ends its line can be the last cell of a
/// sentence: no other character, and no image, ever is.
pub proof fn lemma_only_stops_and_closers_end_sentences(
    t: Seq<Seq<Seq<Cell>>>,
    o: Seq<Seq<ContentObject>>,
    c: Caret,
)
    requires
        match char_of(t, c) {
            Some(x) => !(x == '.' || x == '!' || x == '?' || x == ':' || x == '"' || x == '\'' || x == ')' || x == ']' || x == '}' || x == '»' || x == '”' || x == '’'),
            None => true,
        },
    ensures
        !sentence_boundary(t, o, c),
{
}

/// The closing stop of an abbreviation that no new sentence follows never
/// ends a sentence.
pub proof fn lemma_abbreviation_stop_continues_the_sentence(
    t: Seq<Seq<Seq<Cell>>>,
    o: Seq<Seq<ContentObject>>,
    c: Caret,
)
    requires
        abbreviation_stop(t, c),
        char_of(t, c) != Some(':'),
    ensures
        !sentence_boundary(t, o, c),
{
}

/// The full stop that closes a known abbreviation (a token whose lower-cased
/// body is one of the words of [`lemma_known_abbreviations`], such as `cf.`
/// or `vol.`) ends no sentence when what follows does not open one, as a
/// lower-case continuation does not.
pub proof fn lemma_listed_abbreviation_continues_the_sentence(
    t: Seq<Seq<Seq<Cell>>>,
    o: Seq<Seq<ContentObject>>,
    c: Caret,
)
    requires
        token_span_at(t, c) matches Some((s, e)) && {
            let l = line_cells(t, c.page as int, c.line as int);
            let start = trim_wrappers_front(l, s as int, e as int);
            let end = trim_wrappers_back(l, start, e as int);
            let body = lowercase_chars(strip_stop(cell_chars(l, start, end)));
            &&& start <= end
            &&& end == c.cell
            &&& body.len() > 0
            &&& seq![
                "al"@, "approx"@, "ca"@, "cf"@, "et"@, "etc"@, "ibid"@, "op"@, "resp"@, "seq"@, "viz"@, "vs"@, "app"@, "ch"@, "chap"@, "eq"@, "eqs"@, "fig"@, "figs"@, "no"@, "nos"@, "p"@, "para"@, "pp"@, "pt"@, "ref"@, "refs"@, "sec"@, "secs"@, "tab"@, "tabs"@, "vol"@, "vols"@, "ed"@, "eds"@, "orig"@, "repr"@, "rev"@, "suppl"@, "trans"@, "transl"@, "capt"@, "col"@, "dr"@, "gen"@, "hon"@, "jr"@, "lt"@, "mr"@, "mrs"@, "ms"@, "prof"@, "sgt"@, "sr"@, "st"@, "jan"@, "feb"@, "mar"@, "apr"@, "jun"@, "jul"@, "aug"@, "sep"@, "sept"@, "oct"@, "nov"@, "dec"@, "mon"@, "tue"@, "tues"@, "wed"@, "thu"@, "thur"@, "thurs"@, "fri"@, "sat"@, "sun"@, "co"@, "corp"@, "dept"@, "est"@, "excl"@, "incl"@, "inc"@, "ltd"@, "max"@, "min"@, "univ"@,
            ].contains(body)
        },
        char_of(t, c) == Some('.'),
        following_chars(t, c, 8) matches Some(f) && !opens_sentence(f),
    ensures
        !sentence_boundary(t, o, c),
{
    let (s, e) = token_span_at(t, c).unwrap();
    let l = line_cells(t, c.page as int, c.line as int);
    let start = trim_wrappers_front(l, s as int, e as int);
    let end = trim_wrappers_back(l, start, e as int);
    lemma_known_abbreviations(cell_chars(l, start, end));
    assert(abbreviation_span(t, c) == Some((start, end)));
    assert(abbreviation_stop(t, c));
}

/// A terminator (`.` `!` `?`) followed by white space or the end of the page
/// ends a sentence, outside headings, equations and list markers and where
/// it is not part of a number, an abbreviation or a link.
pub proof fn lemma_stop_before_space_ends_the_sentence(
    t: Seq<Seq<Seq<Cell>>>,
    o: Seq<Seq<ContentObject>>,
    c: Caret,
)
    requires
        char_of(t, c) == Some('.') || char_of(t, c) == Some('!') || char_of(t, c) == Some('?'),
        match next_on_page(t, c) {
            None => true,
            Some(n) => char_of(t, n) matches Some(x) && spec_is_whitespace(x),
        },
        !in_one_sentence_region(o, c),
        !in_list_marker(t, o, c),
        !number_interior_at(t, c, false),
        !abbreviation_stop(t, c),
        !inside_link(t, c),
    ensures
        sentence_boundary(t, o, c),
{
    if let Some(n) = next_on_page(t, c) {
        assert(!closes_sentence(char_of(t, n)));
    }
}
} // verus!
