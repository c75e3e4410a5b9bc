//! Word motion over a document's text: stepping the caret cell by cell, and
//! the rules that decide which adjacent cells belong to one word.
//!
//! A word, for `w`/`b`/`e`, is more than a run of letters: a number with its
//! decimal point and exponent (`2.3E+5`), a hyphenated compound
//! (`state-of-the-art`), an abbreviation with its stops (`e.g.`), a figure
//! with its proportion sign (`45.5%`) and a whole link
//! (`https://example.com/a?x=1`) are each one stop. Runs never continue
//! across a line break, and every image is a stop of its own.

use vstd::prelude::*;

use crate::caret::{
    attached_number_suffix, blank_cell, class_of, inside_dotted_token, inside_hyphenated_word,
    inside_number, inside_scientific_exponent, is_attached_number_suffix, is_exponent_sign,
    is_inside_dotted_token, is_inside_hyphenated_word, is_inside_number,
    is_inside_scientific_exponent, is_number_suffix, is_numeric_separator, is_word_hyphen,
    initials_shape, is_abbreviation, known_abbreviation, lemma_link_range_bounds, link_range,
    abbreviation_list, link_span, opens_a_sentence, opens_sentence, strip_stop, word_char,
    spec_exponent_sign, spec_number_suffix, spec_word_hyphen, word_class, Caret, Cell, CellKind,
    ContentObject, LineMark, WordClass, WordMark,
};
use crate::text::{is_alphanumeric, is_whitespace, lowercase_chars, spec_is_whitespace, string_of};

verus! {

/// The navigable text of a document: its pages, each a list of content
/// lines, each a list of cells. A page without lines has no navigable
/// content and is skipped by caret motion.
pub struct DocumentText {
    pub pages: Vec<Vec<Vec<Cell>>>,
    /// The structural objects of each page, sorted by first line, their line
    /// ranges disjoint. A page past the end of this list has none.
    pub objects: Vec<Vec<ContentObject>>,
    /// The paragraphs the layout analysis grouped each page's lines into, in
    /// line order, each an inclusive range of lines. A page past the end of
    /// this list has none.
    pub paragraphs: Vec<Vec<(usize, usize)>>,
}

impl DocumentText {
    /// The cells of the document, page by page and line by line.
    pub open spec fn text(&self) -> Seq<Seq<Seq<Cell>>> {
        self.pages@.map_values(|p: Vec<Vec<Cell>>| p@.map_values(|l: Vec<Cell>| l@))
    }
}

/// Every count in `t` fits in a `usize`, as it does for any document held
/// in memory.
pub open spec fn bounded(t: Seq<Seq<Seq<Cell>>>) -> bool {
    &&& t.len() <= usize::MAX
    &&& forall|p: int| 0 <= p < t.len() ==> (#[trigger] t[p]).len() <= usize::MAX
    &&& forall|p: int, q: int|
        0 <= p < t.len() && 0 <= q < t[p].len() ==> (#[trigger] t[p][q]).len() <= usize::MAX
}

impl DocumentText {
    /// The text of a document held in memory is bounded.
    pub proof fn lemma_bounded(&self)
        ensures
            bounded(self.text()),
    {
        let t = self.text();
        assert(t.len() == self.pages.len());
        assert forall|p: int| 0 <= p < t.len() implies (#[trigger] t[p]).len() <= usize::MAX by {
            assert(t[p].len() == self.pages@[p].len());
        }
        assert forall|p: int, q: int|
            0 <= p < t.len() && 0 <= q < t[p].len() implies (#[trigger] t[p][q]).len()
            <= usize::MAX by {
            assert(t[p][q].len() == self.pages@[p]@[q].len());
        }
    }
}

/// The number of lines on `page`; none for a page the document does not have.
pub open spec fn lines_of(t: Seq<Seq<Seq<Cell>>>, page: int) -> int {
    if 0 <= page < t.len() {
        t[page].len() as int
    } else {
        0
    }
}

/// The number of cells on line `line` of `page`; none for a line the
/// document does not have.
pub open spec fn cells_of(t: Seq<Seq<Seq<Cell>>>, page: int, line: int) -> int {
    if 0 <= page < t.len() && 0 <= line < t[page].len() {
        t[page][line].len() as int
    } else {
        0
    }
}

/// The cell at `c`, if the document has one there.
pub open spec fn cell_at(t: Seq<Seq<Seq<Cell>>>, c: Caret) -> Option<Cell> {
    if c.cell < cells_of(t, c.page as int, c.line as int) {
        Some(t[c.page as int][c.line as int][c.cell as int])
    } else {
        None
    }
}

/// One less than `n`, but never below zero.
pub open spec fn less_one(n: int) -> int {
    if n > 0 {
        n - 1
    } else {
        0
    }
}

/// The first page from `p` on that has content.
pub open spec fn content_page_from(t: Seq<Seq<Seq<Cell>>>, p: int) -> Option<int>
    decreases t.len() - p,
{
    if p < 0 || p >= t.len() {
        None
    } else if t[p].len() > 0 {
        Some(p)
    } else {
        content_page_from(t, p + 1)
    }
}

/// The last page before `p` that has content.
pub open spec fn content_page_before(t: Seq<Seq<Seq<Cell>>>, p: int) -> Option<int>
    decreases p,
{
    if p <= 0 {
        None
    } else if lines_of(t, p - 1) > 0 {
        Some(p - 1)
    } else {
        content_page_before(t, p - 1)
    }
}

/// The position one cell forward: along the line, then to the start of the
/// next line, then to the start of the next page with content.
pub open spec fn next_pos(t: Seq<Seq<Seq<Cell>>>, c: Caret) -> Option<Caret> {
    if c.cell + 1 < cells_of(t, c.page as int, c.line as int) {
        Some(Caret { page: c.page, line: c.line, cell: (c.cell + 1) as usize })
    } else if c.line + 1 < lines_of(t, c.page as int) {
        Some(Caret { page: c.page, line: (c.line + 1) as usize, cell: 0 })
    } else {
        match content_page_from(t, c.page + 1) {
            Some(p) => Some(Caret { page: p as usize, line: 0, cell: 0 }),
            None => None,
        }
    }
}

/// The position one cell back: along the line, then to the end of the
/// previous line, then to the end of the previous page with content.
pub open spec fn prev_pos(t: Seq<Seq<Seq<Cell>>>, c: Caret) -> Option<Caret> {
    if c.cell > 0 {
        Some(Caret { page: c.page, line: c.line, cell: (c.cell - 1) as usize })
    } else if c.line > 0 {
        Some(
            Caret {
                page: c.page,
                line: (c.line - 1) as usize,
                cell: less_one(cells_of(t, c.page as int, c.line - 1)) as usize,
            },
        )
    } else {
        match content_page_before(t, c.page as int) {
            Some(p) => {
                let line = less_one(lines_of(t, p));
                Some(
                    Caret {
                        page: p as usize,
                        line: line as usize,
                        cell: less_one(cells_of(t, p, line)) as usize,
                    },
                )
            },
            None => None,
        }
    }
}

impl DocumentText {
    /// The number of lines on `page` (none for a page the document lacks).
    pub fn page_line_count(&self, page: usize) -> (n: usize)
        ensures
            n == lines_of(self.text(), page as int),
    {
        if page < self.pages.len() {
            self.pages[page].len()
        } else {
            0
        }
    }

    /// The number of cells on a line (none for a line the document lacks).
    pub fn line_cell_count(&self, page: usize, line: usize) -> (n: usize)
        ensures
            n == cells_of(self.text(), page as int, line as int),
    {
        if page < self.pages.len() && line < self.pages[page].len() {
            self.pages[page][line].len()
        } else {
            0
        }
    }

    /// The cell at `c`, if there is one.
    pub fn cell(&self, c: Caret) -> (r: Option<Cell>)
        ensures
            r == cell_at(self.text(), c),
    {
        if c.cell < self.line_cell_count(c.page, c.line) {
            Some(self.pages[c.page][c.line][c.cell])
        } else {
            None
        }
    }

    /// The first page after `after` that has content.
    pub fn next_content_page(&self, after: usize) -> (r: Option<usize>)
        ensures
            match r {
                Some(p) => content_page_from(self.text(), after + 1) == Some(p as int),
                None => content_page_from(self.text(), after + 1) is None,
            },
    {
        let n = self.pages.len();
        if after >= n {
            return None;
        }
        let mut p: usize = after + 1;
        while p < n
            invariant
                n == self.text().len(),
                after < p <= n,
                content_page_from(self.text(), after + 1) == content_page_from(self.text(), p as int),
            decreases n - p,
        {
            if self.pages[p].len() > 0 {
                return Some(p);
            }
            p = p + 1;
        }
        None
    }

    /// The last page before `before` that has content.
    pub fn prev_content_page(&self, before: usize) -> (r: Option<usize>)
        ensures
            match r {
                Some(p) => content_page_before(self.text(), before as int) == Some(p as int),
                None => content_page_before(self.text(), before as int) is None,
            },
    {
        let mut p: usize = before;
        while p > 0
            invariant
                p <= before,
                content_page_before(self.text(), before as int) == content_page_before(self.text(), p as int),
            decreases p,
        {
            if self.page_line_count(p - 1) > 0 {
                return Some(p - 1);
            }
            p = p - 1;
        }
        None
    }

    /// Move `caret` one cell forward; `false`, leaving it alone, at the end
    /// of the document.
    pub fn step_right(&self, caret: &mut Caret) -> (moved: bool)
        ensures
            match next_pos(self.text(), *old(caret)) {
                Some(n) => moved && *final(caret) == n,
                None => !moved && *final(caret) == *old(caret),
            },
    {
        let len = self.line_cell_count(caret.page, caret.line);
        if len > 0 && caret.cell < len - 1 {
            caret.cell = caret.cell + 1;
            return true;
        }
        let lines = self.page_line_count(caret.page);
        if lines > 0 && caret.line < lines - 1 {
            caret.line = caret.line + 1;
            caret.cell = 0;
            return true;
        }
        match self.next_content_page(caret.page) {
            Some(next) => {
                *caret = Caret { page: next, line: 0, cell: 0 };
                true
            },
            None => false,
        }
    }

    /// Move `caret` one cell back; `false`, leaving it alone, at the start
    /// of the document.
    pub fn step_left(&self, caret: &mut Caret) -> (moved: bool)
        ensures
            match prev_pos(self.text(), *old(caret)) {
                Some(p) => moved && *final(caret) == p,
                None => !moved && *final(caret) == *old(caret),
            },
    {
        if caret.cell > 0 {
            caret.cell = caret.cell - 1;
            return true;
        }
        if caret.line > 0 {
            caret.line = caret.line - 1;
            caret.cell = self.line_cell_count(caret.page, caret.line).saturating_sub(1);
            return true;
        }
        match self.prev_content_page(caret.page) {
            Some(prev) => {
                let line = self.page_line_count(prev).saturating_sub(1);
                let cell = self.line_cell_count(prev, line).saturating_sub(1);
                *caret = Caret { page: prev, line, cell };
                true
            },
            None => false,
        }
    }

    /// The position one cell forward, if any.
    pub fn next_cell(&self, caret: Caret) -> (r: Option<Caret>)
        ensures
            r == next_pos(self.text(), caret),
    {
        let mut next = caret;
        if self.step_right(&mut next) {
            Some(next)
        } else {
            None
        }
    }

    /// The position one cell back, if any.
    pub fn prev_cell(&self, caret: Caret) -> (r: Option<Caret>)
        ensures
            r == prev_pos(self.text(), caret),
    {
        let mut prev = caret;
        if self.step_left(&mut prev) {
            Some(prev)
        } else {
            None
        }
    }
}

/// The character at `c`; `None` for an image or where there is no cell.
pub open spec fn char_of(t: Seq<Seq<Seq<Cell>>>, c: Caret) -> Option<char> {
    match cell_at(t, c) {
        Some(cell) => match cell.kind {
            CellKind::Char(ch) => Some(ch),
            CellKind::Image => None,
        },
        None => None,
    }
}

/// The word class of the cell at `c`, if there is a cell.
pub open spec fn class_at(t: Seq<Seq<Seq<Cell>>>, c: Caret) -> Option<WordClass> {
    match cell_at(t, c) {
        Some(cell) => Some(class_of(cell.kind)),
        None => None,
    }
}

/// Whether the cell at `c` is a space the extraction guessed.
pub open spec fn synthetic_at(t: Seq<Seq<Seq<Cell>>>, c: Caret) -> bool {
    match cell_at(t, c) {
        Some(cell) => cell.synthetic,
        None => false,
    }
}

/// The position one cell forward, if it is on the same line.
pub open spec fn next_on_line(t: Seq<Seq<Seq<Cell>>>, c: Caret) -> Option<Caret> {
    match next_pos(t, c) {
        Some(n) => if n.page == c.page && n.line == c.line {
            Some(n)
        } else {
            None
        },
        None => None,
    }
}

/// The position one cell back, if it is on the same line.
pub open spec fn prev_on_line(t: Seq<Seq<Seq<Cell>>>, c: Caret) -> Option<Caret> {
    match prev_pos(t, c) {
        Some(p) => if p.page == c.page && p.line == c.line {
            Some(p)
        } else {
            None
        },
        None => None,
    }
}

/// The position one cell forward, if it is on the same page.
pub open spec fn next_on_page(t: Seq<Seq<Seq<Cell>>>, c: Caret) -> Option<Caret> {
    match next_pos(t, c) {
        Some(n) => if n.page == c.page {
            Some(n)
        } else {
            None
        },
        None => None,
    }
}

/// The next cell on the line, stepping past one guessed space.
pub open spec fn next_real_on_line(t: Seq<Seq<Seq<Cell>>>, c: Caret) -> Option<Caret> {
    match next_on_line(t, c) {
        Some(n) => if synthetic_at(t, n) {
            next_on_line(t, n)
        } else {
            Some(n)
        },
        None => None,
    }
}

/// The previous cell on the line, stepping past one guessed space.
pub open spec fn prev_real_on_line(t: Seq<Seq<Seq<Cell>>>, c: Caret) -> Option<Caret> {
    match prev_on_line(t, c) {
        Some(p) => if synthetic_at(t, p) {
            prev_on_line(t, p)
        } else {
            Some(p)
        },
        None => None,
    }
}

/// The character at a position, if there is a position and a character.
pub open spec fn char_of_opt(t: Seq<Seq<Seq<Cell>>>, c: Option<Caret>) -> Option<char> {
    match c {
        Some(p) => char_of(t, p),
        None => None,
    }
}

/// The neighbour of `c` on its line in one direction, seeing through a
/// guessed space when `skip` holds.
pub open spec fn side_of(t: Seq<Seq<Seq<Cell>>>, c: Caret, forward: bool, skip: bool) -> Option<Caret> {
    if forward {
        if skip {
            next_real_on_line(t, c)
        } else {
            next_on_line(t, c)
        }
    } else {
        if skip {
            prev_real_on_line(t, c)
        } else {
            prev_on_line(t, c)
        }
    }
}

/// Whether the character at `c` is punctuation inside a number or a dotted
/// identifier — a decimal point, a grouping separator, a stop in `VII.0`, or
/// the sign of an exponent — judged against its neighbours on the line, seen
/// through a guessed space when `skip` holds.
pub open spec fn number_interior_at(t: Seq<Seq<Seq<Cell>>>, c: Caret, skip: bool) -> bool {
    match char_of(t, c) {
        None => false,
        Some(here) => {
            if !((here == '.' || here == ',') || spec_exponent_sign(here)) {
                false
            } else {
                let prev = side_of(t, c, false, skip);
                let before = char_of_opt(t, prev);
                let after = char_of_opt(t, side_of(t, c, true, skip));
                if inside_number(before, here, after) || inside_dotted_token(before, here, after) {
                    true
                } else {
                    let before2 = match prev {
                        Some(p) => char_of_opt(t, side_of(t, p, false, skip)),
                        None => None,
                    };
                    inside_scientific_exponent(before2, before, here, after)
                }
            }
        },
    }
}

/// Whether the character at `c` is a proportion sign attached to the figure
/// before it.
pub open spec fn number_suffix_at(t: Seq<Seq<Seq<Cell>>>, c: Caret) -> bool {
    match char_of(t, c) {
        None => false,
        Some(here) => spec_number_suffix(here) && attached_number_suffix(
            char_of_opt(t, prev_real_on_line(t, c)),
            here,
        ),
    }
}

/// Whether the character at `c` is a hyphen joining a compound word.
pub open spec fn hyphen_interior_at(t: Seq<Seq<Seq<Cell>>>, c: Caret) -> bool {
    match char_of(t, c) {
        None => false,
        Some(here) => spec_word_hyphen(here) && inside_hyphenated_word(
            char_of_opt(t, prev_real_on_line(t, c)),
            here,
            char_of_opt(t, next_real_on_line(t, c)),
        ),
    }
}

impl DocumentText {
    /// The character at `c`, or `None` for an image or absent cell.
    pub fn char_at(&self, c: Caret) -> (r: Option<char>)
        ensures
            r == char_of(self.text(), c),
    {
        match self.cell(c) {
            Some(cell) => match cell.kind {
                CellKind::Char(ch) => Some(ch),
                CellKind::Image => None,
            },
            None => None,
        }
    }

    /// The word class of the cell at `c`, if there is one.
    pub fn word_class_at(&self, c: Caret) -> (r: Option<WordClass>)
        ensures
            r == class_at(self.text(), c),
    {
        match self.cell(c) {
            Some(cell) => Some(word_class(&cell)),
            None => None,
        }
    }

    /// Whether the cell at `c` is a space the extraction guessed rather than a
    /// character the document holds.
    pub fn is_synthetic_space_at(&self, c: Caret) -> (r: bool)
        ensures
            r == synthetic_at(self.text(), c),
    {
        match self.cell(c) {
            Some(cell) => cell.synthetic,
            None => false,
        }
    }

    /// The position one cell forward, if it is on the same line.
    pub fn next_cell_on_line(&self, c: Caret) -> (r: Option<Caret>)
        ensures
            r == next_on_line(self.text(), c),
    {
        match self.next_cell(c) {
            Some(n) => if n.page == c.page && n.line == c.line {
                Some(n)
            } else {
                None
            },
            None => None,
        }
    }

    /// The position one cell back, if it is on the same line.
    pub fn prev_cell_on_line(&self, c: Caret) -> (r: Option<Caret>)
        ensures
            r == prev_on_line(self.text(), c),
    {
        match self.prev_cell(c) {
            Some(p) => if p.page == c.page && p.line == c.line {
                Some(p)
            } else {
                None
            },
            None => None,
        }
    }

    /// The position one cell forward, if it is on the same page: sentences
    /// never straddle a page.
    pub fn next_cell_same_page(&self, c: Caret) -> (r: Option<Caret>)
        ensures
            r == next_on_page(self.text(), c),
    {
        match self.next_cell(c) {
            Some(n) => if n.page == c.page {
                Some(n)
            } else {
                None
            },
            None => None,
        }
    }

    /// Like [`DocumentText::next_cell_on_line`], but a single guessed space is
    /// stepped past so the true next character is visible: `9p4kxc2cvd` sees
    /// the `.` two cells away in `9p4kxc2cvd<guessed space>.1`.
    pub fn next_real_cell_on_line(&self, c: Caret) -> (r: Option<Caret>)
        ensures
            r == next_real_on_line(self.text(), c),
    {
        let n = match self.next_cell_on_line(c) {
            Some(n) => n,
            None => return None,
        };
        if self.is_synthetic_space_at(n) {
            self.next_cell_on_line(n)
        } else {
            Some(n)
        }
    }

    /// Symmetric with [`DocumentText::next_real_cell_on_line`].
    pub fn prev_real_cell_on_line(&self, c: Caret) -> (r: Option<Caret>)
        ensures
            r == prev_real_on_line(self.text(), c),
    {
        let p = match self.prev_cell_on_line(c) {
            Some(p) => p,
            None => return None,
        };
        if self.is_synthetic_space_at(p) {
            self.prev_cell_on_line(p)
        } else {
            Some(p)
        }
    }

    /// The neighbour of `c` on its line, seen through a guessed space when
    /// `skip` holds.
    fn side(&self, c: Caret, forward: bool, skip: bool) -> (r: Option<Caret>)
        ensures
            r == side_of(self.text(), c, forward, skip),
    {
        if forward {
            if skip {
                self.next_real_cell_on_line(c)
            } else {
                self.next_cell_on_line(c)
            }
        } else {
            if skip {
                self.prev_real_cell_on_line(c)
            } else {
                self.prev_cell_on_line(c)
            }
        }
    }

    /// The character at a position, if there is one.
    fn char_at_opt(&self, c: Option<Caret>) -> (r: Option<char>)
        ensures
            r == char_of_opt(self.text(), c),
    {
        match c {
            Some(p) => self.char_at(p),
            None => None,
        }
    }

    /// Whether the character at `c` is punctuation sitting inside a number or
    /// a dotted identifier: a decimal point, a grouping separator, a full stop
    /// in `VII.0` / `file.txt`, or the sign of an exponent (`2.3E+5`).
    ///
    /// Only the same line counts: a figure is not carried across a line break.
    /// When `skip_synthetic` holds, neighbours are seen through one guessed
    /// space, so a DOI fragment drawn as `9p4kxc2cvd` + gap + `.1` still joins
    /// for word motion; sentence boundaries use the immediate neighbours, since
    /// any space after a stop must end the sentence.
    pub fn number_interior(&self, c: Caret, skip_synthetic: bool) -> (r: bool)
        ensures
            r == number_interior_at(self.text(), c, skip_synthetic),
    {
        let here = match self.char_at(c) {
            Some(ch) => ch,
            None => return false,
        };
        if !(is_numeric_separator(here) || is_exponent_sign(here)) {
            return false;
        }
        let prev = self.side(c, false, skip_synthetic);
        let before = self.char_at_opt(prev);
        let next = self.side(c, true, skip_synthetic);
        let after = self.char_at_opt(next);
        if is_inside_number(before, here, after) || is_inside_dotted_token(before, here, after) {
            return true;
        }
        let before2 = match prev {
            Some(p) => {
                let pp = self.side(p, false, skip_synthetic);
                self.char_at_opt(pp)
            },
            None => None,
        };
        is_inside_scientific_exponent(before2, before, here, after)
    }

    /// [`DocumentText::number_interior`] seen through guessed spaces, as word
    /// motion asks it.
    pub fn is_number_interior(&self, c: Caret) -> (r: bool)
        ensures
            r == number_interior_at(self.text(), c, true),
    {
        self.number_interior(c, true)
    }

    /// [`DocumentText::number_interior`] against the immediate neighbours, as
    /// sentence boundaries ask it.
    pub fn is_number_interior_tight(&self, c: Caret) -> (r: bool)
        ensures
            r == number_interior_at(self.text(), c, false),
    {
        self.number_interior(c, false)
    }

    /// Whether the character at `c` is a sign attached to the figure in front
    /// of it, as in `45.5%`.
    pub fn is_number_suffix_at(&self, c: Caret) -> (r: bool)
        ensures
            r == number_suffix_at(self.text(), c),
    {
        let here = match self.char_at(c) {
            Some(ch) => ch,
            None => return false,
        };
        if !is_number_suffix(here) {
            return false;
        }
        let p = self.prev_real_cell_on_line(c);
        let before = self.char_at_opt(p);
        is_attached_number_suffix(before, here)
    }

    /// Whether the character at `c` is a hyphen joining a compound word.
    ///
    /// Same-line only: a word broken across a line break is still two stops,
    /// since the hyphen that broke it belongs to the typesetting.
    pub fn is_hyphen_interior(&self, c: Caret) -> (r: bool)
        ensures
            r == hyphen_interior_at(self.text(), c),
    {
        let here = match self.char_at(c) {
            Some(ch) => ch,
            None => return false,
        };
        if !is_word_hyphen(here) {
            return false;
        }
        let p = self.prev_real_cell_on_line(c);
        let before = self.char_at_opt(p);
        let n = self.next_real_cell_on_line(c);
        let after = self.char_at_opt(n);
        is_inside_hyphenated_word(before, here, after)
    }
}

/// The cells of line `line` of `page`; none for a line the document lacks.
pub open spec fn line_cells(t: Seq<Seq<Seq<Cell>>>, page: int, line: int) -> Seq<Cell> {
    if 0 <= page < t.len() && 0 <= line < t[page].len() {
        t[page][line]
    } else {
        Seq::empty()
    }
}

/// The first position of the white-space-delimited token around `i`:
/// just after the last blank cell before `i`, or the start of the line.
pub open spec fn token_start(l: Seq<Cell>, i: int) -> int
    decreases i,
{
    if i <= 0 {
        0
    } else if blank_cell(l[i - 1]) {
        i
    } else {
        token_start(l, i - 1)
    }
}

/// The last position of the white-space-delimited token around `i`: just
/// before the first blank cell after `i`, or the end of the line.
pub open spec fn token_end(l: Seq<Cell>, i: int) -> int
    decreases l.len() - i,
{
    if i + 1 >= l.len() {
        l.len() - 1
    } else if blank_cell(l[i + 1]) {
        i
    } else {
        token_end(l, i + 1)
    }
}

/// The inclusive cell range of the white-space-delimited token containing
/// `c`, or `None` when `c` is white space or not a cell.
pub open spec fn token_span_at(t: Seq<Seq<Seq<Cell>>>, c: Caret) -> Option<(usize, usize)> {
    let l = line_cells(t, c.page as int, c.line as int);
    if c.cell >= l.len() || blank_cell(l[c.cell as int]) {
        None
    } else {
        Some((token_start(l, c.cell as int) as usize, token_end(l, c.cell as int) as usize))
    }
}

/// Whether a cell holds `.` or `/`, the characters a continuation of an
/// address opens with.
pub open spec fn opens_continuation(cell: Cell) -> bool {
    cell.kind == CellKind::Char('.') || cell.kind == CellKind::Char('/')
}

/// The token after the token ending at `end`, when a single blank cell
/// separates them and it opens with `.` or `/`.
pub open spec fn continuing_fragment(l: Seq<Cell>, end: int) -> Option<(int, int)> {
    if end + 2 < l.len() && blank_cell(l[end + 1]) && opens_continuation(l[end + 2]) {
        Some((end + 2, token_end(l, end + 2)))
    } else {
        None
    }
}

/// The token before the token starting at `start`, when that token opens
/// with `.` or `/` and a single blank cell separates them.
pub open spec fn preceding_fragment(l: Seq<Cell>, start: int) -> Option<(int, int)> {
    if 1 <= start < l.len() && opens_continuation(l[start]) && blank_cell(l[start - 1]) {
        Some((token_start(l, start - 1), start - 2))
    } else {
        None
    }
}

/// No line opens with a blank cell directly followed by `.` or `/`. On such
/// a line the fragment before the `.` would end before the line starts.
pub open spec fn well_spaced(t: Seq<Seq<Seq<Cell>>>) -> bool {
    forall|p: int, q: int|
        0 <= p < t.len() && 0 <= q < t[p].len() && t[p][q].len() >= 2 ==> !(blank_cell(
            #[trigger] t[p][q][0],
        ) && opens_continuation(t[p][q][1]))
}

/// Where a chain of address fragments separated by single blanks starts,
/// walking back at most `fuel` fragments from the one at `start..=end`.
pub open spec fn chain_start(l: Seq<Cell>, start: int, end: int, fuel: nat) -> (int, int)
    decreases fuel,
{
    if fuel == 0 {
        (start, end)
    } else {
        match preceding_fragment(l, start) {
            Some((s, e)) => chain_start(l, s, e, (fuel - 1) as nat),
            None => (start, end),
        }
    }
}

/// The positions in `start..=end` of the cells holding a character other
/// than white space, in order.
pub open spec fn char_positions(l: Seq<Cell>, start: int, end: int) -> Seq<int>
    decreases end - start + 1,
{
    if end < start {
        Seq::empty()
    } else {
        let rest = char_positions(l, start, end - 1);
        match l[end].kind {
            CellKind::Char(ch) => if spec_is_whitespace(ch) {
                rest
            } else {
                rest.push(end)
            },
            CellKind::Image => rest,
        }
    }
}

/// The characters of the cells at `positions`.
pub open spec fn chars_at(l: Seq<Cell>, positions: Seq<int>) -> Seq<char> {
    positions.map_values(
        |i: int|
            match l[i].kind {
                CellKind::Char(ch) => ch,
                CellKind::Image => ' ',
            },
    )
}

/// The link found by extending the span `start..=end` over following
/// fragments while the link reaches the end of what has been gathered, at
/// most `fuel` times; `best` is the link found so far.
pub open spec fn link_extension(
    l: Seq<Cell>,
    start: int,
    end: int,
    best: Option<(int, int)>,
    fuel: nat,
) -> Option<(int, int)>
    decreases fuel,
{
    if fuel == 0 {
        best
    } else {
        let positions = char_positions(l, start, end);
        match link_range(chars_at(l, positions)) {
            None => best,
            Some((lo, hi)) => {
                let span = (positions[lo as int], positions[hi as int]);
                if span.1 != end {
                    Some(span)
                } else {
                    match continuing_fragment(l, end) {
                        None => Some(span),
                        Some((_, next_end)) => link_extension(
                            l,
                            start,
                            next_end,
                            Some(span),
                            (fuel - 1) as nat,
                        ),
                    }
                }
            },
        }
    }
}

/// The most fragments a link may be stitched from.
pub open spec fn max_link_fragments() -> nat {
    20
}

/// The inclusive cell range of the link around `c`, if its token holds one,
/// stitched across single blanks that separate fragments of one address.
pub open spec fn link_at_spec(t: Seq<Seq<Seq<Cell>>>, c: Caret) -> Option<(int, int)> {
    match token_span_at(t, c) {
        None => None,
        Some((s, e)) => {
            let l = line_cells(t, c.page as int, c.line as int);
            let chain = chain_start(l, s as int, e as int, max_link_fragments());
            link_extension(l, chain.0, chain.1, None, max_link_fragments())
        },
    }
}

/// Whether a cell is white space.
pub(crate) fn is_blank_cell(cell: &Cell) -> (r: bool)
    ensures
        r == blank_cell(*cell),
{
    match cell.kind {
        CellKind::Char(ch) => is_whitespace(ch),
        CellKind::Image => false,
    }
}

/// The position of the first blank cell of `l` from `i` on, less one — the
/// end of the token `i` is in — is within the line and not before `i`.
proof fn lemma_token_end_bounds(l: Seq<Cell>, i: int)
    requires
        0 <= i < l.len(),
    ensures
        i <= token_end(l, i) < l.len(),
    decreases l.len() - i,
{
    if i + 1 < l.len() && !blank_cell(l[i + 1]) {
        lemma_token_end_bounds(l, i + 1);
    }
}

/// The start of the token `i` is in lies between the line start and `i`.
proof fn lemma_token_start_bounds(l: Seq<Cell>, i: int)
    requires
        0 <= i <= l.len(),
    ensures
        0 <= token_start(l, i) <= i,
    decreases i,
{
    if i > 0 && !blank_cell(l[i - 1]) {
        lemma_token_start_bounds(l, i - 1);
    }
}

impl DocumentText {
    /// The cells of a line, if the document has it.
    pub(crate) fn line(&self, page: usize, line: usize) -> (r: Option<&Vec<Cell>>)
        ensures
            match r {
                Some(cells) => 0 <= page < self.text().len() && 0 <= line < self.text()[page as int].len()
                    && cells@ == line_cells(self.text(), page as int, line as int),
                None => line_cells(self.text(), page as int, line as int) == Seq::<Cell>::empty(),
            },
    {
        if page < self.pages.len() && line < self.pages[page].len() {
            Some(&self.pages[page][line])
        } else {
            None
        }
    }

    /// The inclusive cell range of the whitespace-delimited token containing
    /// `c`, or `None` when `c` is itself whitespace.
    ///
    /// Every whitespace cell ends a token here, guessed or not; bridging a
    /// gap inside an address is the job of [`DocumentText::link_at`], one
    /// fragment at a time.
    pub fn token_span(&self, c: Caret) -> (r: Option<(usize, usize)>)
        ensures
            r == token_span_at(self.text(), c),
    {
        let cells = match self.line(c.page, c.line) {
            Some(cells) => cells,
            None => return None,
        };
        let ghost l = cells@;
        if c.cell >= cells.len() || is_blank_cell(&cells[c.cell]) {
            return None;
        }
        let mut start = c.cell;
        while start > 0 && !is_blank_cell(&cells[start - 1])
            invariant
                l == cells@,
                start <= c.cell < l.len(),
                token_start(l, start as int) == token_start(l, c.cell as int),
            decreases start,
        {
            start = start - 1;
        }
        let mut end = c.cell;
        while end < cells.len() - 1 && !is_blank_cell(&cells[end + 1])
            invariant
                l == cells@,
                c.cell <= end < l.len(),
                token_end(l, end as int) == token_end(l, c.cell as int),
            decreases l.len() - end,
        {
            end = end + 1;
        }
        Some((start, end))
    }

    /// If a single blank cell follows the cell at `end`, and the token beyond
    /// it opens with `.` or `/` — the shape of every continuation of an
    /// address seen in practice (`.com`, `/njoy`, `.17632`) and not of an
    /// ordinary next word — the span of that following token.
    fn continuing_link_fragment(&self, page: usize, line: usize, end: usize) -> (r: Option<
        (usize, usize),
    >)
        requires
            end < line_cells(self.text(), page as int, line as int).len(),
        ensures
            match r {
                Some((s, e)) => continuing_fragment(
                    line_cells(self.text(), page as int, line as int),
                    end as int,
                ) == Some((s as int, e as int)),
                None => continuing_fragment(
                    line_cells(self.text(), page as int, line as int),
                    end as int,
                ) is None,
            },
    {
        let cells = match self.line(page, line) {
            Some(cells) => cells,
            None => return None,
        };
        let ghost l = cells@;
        if cells.len() < 2 || end >= cells.len() - 2 || !is_blank_cell(&cells[end + 1]) {
            return None;
        }
        let next_start = end + 2;
        if !(cells[next_start].kind == CellKind::Char('.') || cells[next_start].kind == CellKind::Char(
            '/',
        )) {
            return None;
        }
        let mut next_end = next_start;
        while next_end < cells.len() - 1 && !is_blank_cell(&cells[next_end + 1])
            invariant
                l == cells@,
                next_start <= next_end < l.len(),
                token_end(l, next_end as int) == token_end(l, next_start as int),
            decreases l.len() - next_end,
        {
            next_end = next_end + 1;
        }
        Some((next_start, next_end))
    }

    /// Symmetric with [`DocumentText::continuing_link_fragment`], searching
    /// backward: if the token starting at `start` opens with `.` or `/` and a
    /// single blank cell precedes it, the span of the token before that blank.
    fn preceding_link_fragment(&self, page: usize, line: usize, start: usize) -> (r: Option<
        (usize, usize),
    >)
        requires
            well_spaced(self.text()),
        ensures
            match r {
                Some((s, e)) => preceding_fragment(
                    line_cells(self.text(), page as int, line as int),
                    start as int,
                ) == Some((s as int, e as int)),
                None => preceding_fragment(
                    line_cells(self.text(), page as int, line as int),
                    start as int,
                ) is None,
            },
    {
        let cells = match self.line(page, line) {
            Some(cells) => cells,
            None => return None,
        };
        let ghost l = cells@;
        if start >= cells.len() || !(cells[start].kind == CellKind::Char('.')
            || cells[start].kind == CellKind::Char('/')) {
            return None;
        }
        if start == 0 || !is_blank_cell(&cells[start - 1]) {
            return None;
        }
        let space_idx = start - 1;
        proof {
            if space_idx == 0 {
                assert(l.len() >= 2);
                assert(l[0] == self.text()[page as int][line as int][0]);
                assert(!(blank_cell(self.text()[page as int][line as int][0]) && opens_continuation(
                    self.text()[page as int][line as int][1],
                )));
            }
        }
        let mut prev_start = space_idx;
        while prev_start > 0 && !is_blank_cell(&cells[prev_start - 1])
            invariant
                l == cells@,
                prev_start <= space_idx < l.len(),
                token_start(l, prev_start as int) == token_start(l, space_idx as int),
            decreases prev_start,
        {
            prev_start = prev_start - 1;
        }
        Some((prev_start, space_idx - 1))
    }
}

/// The line opens neither with a blank cell directly followed by `.` or `/`.
pub open spec fn line_well_spaced(l: Seq<Cell>) -> bool {
    !(l.len() >= 2 && blank_cell(l[0]) && opens_continuation(l[1]))
}

/// The fragment before a fragment lies within the line, and ends just
/// before the blank that separates them.
proof fn lemma_preceding_bounds(l: Seq<Cell>, start: int)
    requires
        line_well_spaced(l),
    ensures
        match preceding_fragment(l, start) {
            Some((s, e)) => 0 <= s <= e + 1 && 0 <= e < l.len() && e == start - 2,
            None => true,
        },
{
    if 1 <= start < l.len() && opens_continuation(l[start]) && blank_cell(l[start - 1]) {
        lemma_token_start_bounds(l, start - 1);
        if start == 1 {
            assert(blank_cell(l[0]) && opens_continuation(l[1]));
        }
    }
}

/// Walking back along a chain of fragments stays within the line.
proof fn lemma_chain_start_bounds(l: Seq<Cell>, start: int, end: int, fuel: nat)
    requires
        line_well_spaced(l),
        0 <= start <= end + 1,
        0 <= end < l.len(),
    ensures
        0 <= chain_start(l, start, end, fuel).0 <= chain_start(l, start, end, fuel).1 + 1,
        0 <= chain_start(l, start, end, fuel).1 < l.len(),
    decreases fuel,
{
    if fuel > 0 {
        lemma_preceding_bounds(l, start);
        match preceding_fragment(l, start) {
            Some((s, e)) => lemma_chain_start_bounds(l, s, e, (fuel - 1) as nat),
            None => {},
        }
    }
}

/// The positions of the characters in a range lie in the range, in
/// increasing order.
proof fn lemma_char_positions_bounds(l: Seq<Cell>, start: int, end: int)
    ensures
        forall|k: int|
            0 <= k < char_positions(l, start, end).len() ==> start <= #[trigger] char_positions(
                l,
                start,
                end,
            )[k] <= end,
    decreases end - start + 1,
{
    if end >= start {
        lemma_char_positions_bounds(l, start, end - 1);
        let rest = char_positions(l, start, end - 1);
        let all = char_positions(l, start, end);
        assert forall|k: int| 0 <= k < all.len() implies start <= #[trigger] all[k] <= end by {
            if k < rest.len() {
                assert(all[k] == rest[k]);
            }
        }
    }
}

impl DocumentText {
    /// The positions of the non-blank characters of `cells[start..=end]`,
    /// and those characters as a string.
    fn characters_in(cells: &Vec<Cell>, start: usize, end: usize) -> (r: (Vec<usize>, String))
        requires
            start <= end + 1,
            end < cells@.len(),
        ensures
            r.0@.map_values(|p: usize| p as int) == char_positions(cells@, start as int, end as int),
            r.1@ == chars_at(cells@, char_positions(cells@, start as int, end as int)),
    {
        let ghost l = cells@;
        let n = cells.len();
        let mut positions: Vec<usize> = Vec::new();
        let mut token = String::new();
        let mut i: usize = start;
        assert(positions@.map_values(|p: usize| p as int) =~= char_positions(l, start as int, i - 1));
        assert(token@ =~= chars_at(l, char_positions(l, start as int, i - 1)));
        while i <= end
            invariant
                l == cells@,
                n == l.len(),
                end < l.len(),
                start <= i <= end + 1,
                positions@.map_values(|p: usize| p as int) == char_positions(l, start as int, i - 1),
                token@ == chars_at(l, char_positions(l, start as int, i - 1)),
            decreases end + 1 - i,
        {
            let ghost before = char_positions(l, start as int, i - 1);
            match cells[i].kind {
                CellKind::Char(ch) => {
                    if !is_whitespace(ch) {
                        positions.push(i);
                        crate::text::push_char(&mut token, ch);
                        assert(positions@.map_values(|p: usize| p as int) =~= before.push(i as int));
                        assert(token@ =~= chars_at(l, before.push(i as int)));
                    }
                },
                CellKind::Image => {},
            }
            i = i + 1;
        }
        (positions, token)
    }

    /// The inclusive cell range of the link inside the token containing `c`,
    /// if there is one.
    ///
    /// The brackets and the sentence-ending stop around a link are not part
    /// of it, so the caller tests `c` against the range. A link is also
    /// stitched across the literal spacing some documents put inside an
    /// address (`https://doi .org /10 .17632`): a following token joins only
    /// when it opens with `.` or `/` *and* the concatenation is still one link
    /// reaching its far end. The chain is first walked back to its start, so
    /// the answer is the same whichever fragment `c` lies in.
    pub fn link_at(&self, c: Caret) -> (r: Option<(usize, usize)>)
        requires
            well_spaced(self.text()),
        ensures
            match r {
                Some((s, e)) => link_at_spec(self.text(), c) == Some((s as int, e as int)),
                None => link_at_spec(self.text(), c) is None,
            },
    {
        let (s0, e0) = match self.token_span(c) {
            Some(span) => span,
            None => return None,
        };
        let cells = match self.line(c.page, c.line) {
            Some(cells) => cells,
            None => return None,
        };
        let ghost l = cells@;
        let _line_len = cells.len();
        proof {
            assert(token_span_at(self.text(), c) == Some((s0, e0)));
            assert(c.cell < l.len());
            lemma_token_start_bounds(l, c.cell as int);
            lemma_token_end_bounds(l, c.cell as int);
            assert(s0 as int == token_start(l, c.cell as int));
            assert(e0 as int == token_end(l, c.cell as int));
            assert(s0 <= c.cell <= e0);
            if l.len() >= 2 {
                assert(l[0] == self.text()[c.page as int][c.line as int][0]);
            }
        }
        let mut start = s0;
        let mut end = e0;
        let mut k: usize = 0;
        while k < 20
            invariant
                l == cells@,
                l == line_cells(self.text(), c.page as int, c.line as int),
                well_spaced(self.text()),
                line_well_spaced(l),
                k <= 20,
                start <= end + 1,
                end < l.len(),
                chain_start(l, s0 as int, e0 as int, 20) == chain_start(
                    l,
                    start as int,
                    end as int,
                    (20 - k) as nat,
                ),
            ensures
                start <= end + 1,
                end < l.len(),
                chain_start(l, s0 as int, e0 as int, 20) == (start as int, end as int),
            decreases 20 - k,
        {
            proof {
                lemma_preceding_bounds(l, start as int);
            }
            match self.preceding_link_fragment(c.page, c.line, start) {
                Some((ps, pe)) => {
                    start = ps;
                    end = pe;
                },
                None => {
                    break;
                },
            }
            k = k + 1;
        }
        let ghost chain_end = end;
        let mut best: Option<(usize, usize)> = None;
        let mut k: usize = 0;
        while k < 20
            invariant
                l == cells@,
                l == line_cells(self.text(), c.page as int, c.line as int),
                k <= 20,
                start <= end + 1,
                end < l.len(),
                link_extension(l, start as int, chain_end as int, None, 20) == link_extension(
                    l,
                    start as int,
                    end as int,
                    match best {
                        Some((a, b)) => Some((a as int, b as int)),
                        None => None,
                    },
                    (20 - k) as nat,
                ),
            ensures
                link_extension(l, start as int, chain_end as int, None, 20) == match best {
                    Some((a, b)) => Some((a as int, b as int)),
                    None => None,
                },
            decreases 20 - k,
        {
            let (positions, token) = DocumentText::characters_in(cells, start, end);
            let ghost ps = char_positions(l, start as int, end as int);
            let count = positions.len();
            proof {
                assert(token@.len() == ps.len());
                assert(ps.len() == positions@.len());
                lemma_link_range_bounds(token@);
                lemma_char_positions_bounds(l, start as int, end as int);
            }
            match link_span(token.as_str()) {
                None => {
                    break;
                },
                Some((lo, hi)) => {
                    assert(positions@.map_values(|p: usize| p as int)[lo as int] == positions@[lo as int] as int);
                    assert(positions@.map_values(|p: usize| p as int)[hi as int] == positions@[hi as int] as int);
                    let span = (positions[lo], positions[hi]);
                    best = Some(span);
                    if span.1 != end {
                        break;
                    }
                    match self.continuing_link_fragment(c.page, c.line, end) {
                        None => {
                            break;
                        },
                        Some((_, next_end)) => {
                            proof {
                                lemma_token_end_bounds(l, end + 2);
                            }
                            end = next_end;
                        },
                    }
                },
            }
            k = k + 1;
        }
        best
    }

    /// Whether `c` sits inside a link, where a stop is part of the address
    /// rather than the end of a sentence.
    pub fn is_inside_link(&self, c: Caret) -> (r: bool)
        requires
            well_spaced(self.text()),
        ensures
            r == match link_at_spec(self.text(), c) {
                Some((s, e)) => s <= c.cell <= e,
                None => false,
            },
    {
        match self.link_at(c) {
            Some((start, end)) => c.cell >= start && c.cell <= end,
            None => false,
        }
    }
}

/// Whether `ch` is punctuation wrapped around a construct rather than part
/// of it: anything but a letter, digit or `_`.
pub open spec fn wrapper_char(ch: char) -> bool {
    !word_char(ch)
}

/// The first position from `start` that is not a wrapping character,
/// stopping past `end`.
pub open spec fn trim_wrappers_front(l: Seq<Cell>, start: int, end: int) -> int
    decreases end + 1 - start,
{
    if start <= end && 0 <= start < l.len() && (match l[start].kind {
        CellKind::Char(ch) => wrapper_char(ch),
        CellKind::Image => false,
    }) {
        trim_wrappers_front(l, start + 1, end)
    } else {
        start
    }
}

/// The last position from `end` down, stopping at `start`, that is not a
/// wrapping character other than a full stop.
pub open spec fn trim_wrappers_back(l: Seq<Cell>, start: int, end: int) -> int
    decreases end - start,
{
    if end > start && 0 <= end < l.len() && (match l[end].kind {
        CellKind::Char(ch) => wrapper_char(ch) && ch != '.',
        CellKind::Image => false,
    }) {
        trim_wrappers_back(l, start, end - 1)
    } else {
        end
    }
}

/// The characters of the cells in `start..=end`, images left out.
pub open spec fn cell_chars(l: Seq<Cell>, start: int, end: int) -> Seq<char>
    decreases end - start + 1,
{
    if end < start {
        Seq::empty()
    } else {
        let rest = cell_chars(l, start, end - 1);
        match l[end].kind {
            CellKind::Char(ch) => rest.push(ch),
            CellKind::Image => rest,
        }
    }
}

/// Whether `token` is an abbreviation of either kind: dotted initials, or
/// one of the known abbreviations.
pub open spec fn abbreviation(token: Seq<char>) -> bool {
    initials_shape(strip_stop(token)) || known_abbreviation(token)
}

/// The inclusive cell range of the abbreviation inside the token containing
/// `c`, the punctuation wrapped around it trimmed off, if it is one.
pub open spec fn abbreviation_span(t: Seq<Seq<Seq<Cell>>>, c: Caret) -> Option<(int, int)> {
    match token_span_at(t, c) {
        None => None,
        Some((s, e)) => {
            let l = line_cells(t, c.page as int, c.line as int);
            let start = trim_wrappers_front(l, s as int, e as int);
            let end = trim_wrappers_back(l, start, e as int);
            if start > end {
                None
            } else if abbreviation(cell_chars(l, start, end)) {
                Some((start, end))
            } else {
                None
            }
        },
    }
}

/// The characters on the cells after `c`, at most `n` of them and up to the
/// first image; `None` when the page ends first.
pub open spec fn following_chars(t: Seq<Seq<Seq<Cell>>>, c: Caret, n: nat) -> Option<Seq<char>>
    decreases n,
{
    if n == 0 {
        Some(Seq::empty())
    } else {
        match next_on_page(t, c) {
            None => None,
            Some(next) => match char_of(t, next) {
                None => Some(Seq::empty()),
                Some(ch) => match following_chars(t, next, (n - 1) as nat) {
                    None => None,
                    Some(rest) => Some(seq![ch] + rest),
                },
            },
        }
    }
}

/// Whether `c` lies within `span`.
pub open spec fn within_span(c: Caret, span: (int, int)) -> bool {
    span.0 <= c.cell <= span.1
}

/// Whether the stop at `c` closes an abbreviation without ending the
/// sentence it sits in: a stop inside the construct never ends anything, and
/// the closing one does only when a new sentence visibly follows.
pub open spec fn abbreviation_stop(t: Seq<Seq<Seq<Cell>>>, c: Caret) -> bool {
    match abbreviation_span(t, c) {
        None => false,
        Some(span) => if !within_span(c, span) {
            false
        } else if c.cell < span.1 {
            true
        } else {
            match following_chars(t, c, 8) {
                None => false,
                Some(f) => !opens_sentence(f),
            }
        },
    }
}

/// Trimming wrappers off the front stays within `start..=end + 1`.
proof fn lemma_trim_front_bounds(l: Seq<Cell>, start: int, end: int)
    requires
        start <= end + 1,
    ensures
        start <= trim_wrappers_front(l, start, end) <= end + 1,
    decreases end + 1 - start,
{
    if start <= end && 0 <= start < l.len() && (match l[start].kind {
        CellKind::Char(ch) => wrapper_char(ch),
        CellKind::Image => false,
    }) {
        lemma_trim_front_bounds(l, start + 1, end);
    }
}

/// Trimming wrappers off the back stays within `start..=end`, when
/// `start <= end`.
proof fn lemma_trim_back_bounds(l: Seq<Cell>, start: int, end: int)
    requires
        start <= end,
    ensures
        start <= trim_wrappers_back(l, start, end) <= end,
    decreases end - start,
{
    if end > start && 0 <= end < l.len() && (match l[end].kind {
        CellKind::Char(ch) => wrapper_char(ch) && ch != '.',
        CellKind::Image => false,
    }) {
        lemma_trim_back_bounds(l, start, end - 1);
    }
}

/// Whether a cell holds punctuation wrapped around a construct.
fn wraps_front(cell: &Cell) -> (r: bool)
    ensures
        r == match cell.kind {
            CellKind::Char(ch) => wrapper_char(ch),
            CellKind::Image => false,
        },
{
    match cell.kind {
        CellKind::Char(ch) => !(is_alphanumeric(ch) || ch == '_'),
        CellKind::Image => false,
    }
}

/// Whether a cell holds punctuation wrapped around a construct, other than a
/// full stop, which may be the construct's own.
fn wraps_back(cell: &Cell) -> (r: bool)
    ensures
        r == match cell.kind {
            CellKind::Char(ch) => wrapper_char(ch) && ch != '.',
            CellKind::Image => false,
        },
{
    match cell.kind {
        CellKind::Char(ch) => !(is_alphanumeric(ch) || ch == '_') && ch != '.',
        CellKind::Image => false,
    }
}

impl DocumentText {
    /// The characters of `cells[start..=end]`, images left out.
    fn cell_text(cells: &Vec<Cell>, start: usize, end: usize) -> (r: String)
        requires
            start <= end + 1,
            end < cells@.len(),
        ensures
            r@ == cell_chars(cells@, start as int, end as int),
    {
        let ghost l = cells@;
        let n = cells.len();
        let mut token = String::new();
        let mut i: usize = start;
        assert(token@ =~= cell_chars(l, start as int, i - 1));
        while i <= end
            invariant
                l == cells@,
                n == l.len(),
                end < l.len(),
                start <= i <= end + 1,
                token@ == cell_chars(l, start as int, i - 1),
            decreases end + 1 - i,
        {
            match cells[i].kind {
                CellKind::Char(ch) => {
                    crate::text::push_char(&mut token, ch);
                },
                CellKind::Image => {},
            }
            i = i + 1;
        }
        token
    }

    /// The inclusive cell range of the abbreviation inside the
    /// whitespace-delimited token containing `c`, if there is one.
    ///
    /// This is what makes `e.g.` one word and one sentence: the same span
    /// answers both questions. The span is the abbreviation itself, not the
    /// whole token: the brackets and commas around `(e.g.,` are trimmed off
    /// before the token is recognised, so `c` may sit outside the range.
    pub fn abbreviation_at(&self, c: Caret) -> (r: Option<(usize, usize)>)
        ensures
            match r {
                Some((s, e)) => abbreviation_span(self.text(), c) == Some((s as int, e as int)),
                None => abbreviation_span(self.text(), c) is None,
            },
    {
        let (s0, e0) = match self.token_span(c) {
            Some(span) => span,
            None => return None,
        };
        let cells = match self.line(c.page, c.line) {
            Some(cells) => cells,
            None => return None,
        };
        let ghost l = cells@;
        let _line_len = cells.len();
        proof {
            assert(token_span_at(self.text(), c) == Some((s0, e0)));
            lemma_token_start_bounds(l, c.cell as int);
            lemma_token_end_bounds(l, c.cell as int);
            assert(s0 as int == token_start(l, c.cell as int));
            assert(e0 as int == token_end(l, c.cell as int));
        }
        let end0 = e0;
        let mut start = s0;
        while start <= end0 && wraps_front(&cells[start])
            invariant
                l == cells@,
                _line_len == l.len(),
                s0 <= start <= end0 + 1,
                end0 < l.len(),
                trim_wrappers_front(l, s0 as int, end0 as int) == trim_wrappers_front(
                    l,
                    start as int,
                    end0 as int,
                ),
            decreases end0 + 1 - start,
        {
            start = start + 1;
        }
        if start > end0 {
            return None;
        }
        let mut end = end0;
        while end > start && wraps_back(&cells[end])
            invariant
                l == cells@,
                start <= end <= end0,
                end0 < l.len(),
                trim_wrappers_back(l, start as int, end0 as int) == trim_wrappers_back(
                    l,
                    start as int,
                    end as int,
                ),
            decreases end - start,
        {
            end = end - 1;
        }
        let token = DocumentText::cell_text(cells, start, end);
        if is_abbreviation(token.as_str()) {
            Some((start, end))
        } else {
            None
        }
    }

    /// Whether the stop at `c` closes an abbreviation without ending the
    /// sentence it sits in.
    pub fn is_abbreviation_stop(&self, c: Caret) -> (r: bool)
        ensures
            r == abbreviation_stop(self.text(), c),
    {
        let (start, end) = match self.abbreviation_at(c) {
            Some(span) => span,
            None => return false,
        };
        if c.cell < start || c.cell > end {
            return false;
        }
        if c.cell < end {
            return true;
        }
        let mut following = String::new();
        let mut cur = c;
        let mut k: usize = 0;
        while k < 8
            invariant_except_break
                following_chars(self.text(), c, 8) == match following_chars(
                    self.text(),
                    cur,
                    (8 - k) as nat,
                ) {
                    None => None,
                    Some(rest) => Some(following@ + rest),
                },
            invariant
                k <= 8,
                abbreviation_stop(self.text(), c) == match following_chars(self.text(), c, 8) {
                    None => false,
                    Some(f) => !opens_sentence(f),
                },
            ensures
                following_chars(self.text(), c, 8) == Some(following@),
            decreases 8 - k,
        {
            let ghost prev = cur;
            match self.next_cell_same_page(cur) {
                Some(next) => {
                    cur = next;
                    match self.char_at(cur) {
                        Some(ch) => {
                            let ghost before = following@;
                            crate::text::push_char(&mut following, ch);
                            proof {
                                match following_chars(self.text(), cur, (8 - k - 1) as nat) {
                                    None => {},
                                    Some(rest) => {
                                        assert(before + (seq![ch] + rest) =~= following@ + rest);
                                    },
                                }
                            }
                        },
                        None => {
                            assert(following_chars(self.text(), prev, (8 - k) as nat) == Some(
                                Seq::<char>::empty(),
                            ));
                            assert(following@ + Seq::<char>::empty() =~= following@);
                            break;
                        },
                    }
                },
                None => {
                    assert(following_chars(self.text(), prev, (8 - k) as nat) is None);
                    return false;
                },
            }
            k = k + 1;
        }
        proof {
            if k == 8 {
                assert(following_chars(self.text(), cur, 0) == Some(Seq::<char>::empty()));
                assert(following@ + Seq::<char>::empty() =~= following@);
            }
        }
        !opens_a_sentence(following.as_str())
    }
}

/// The link around `left`, or failing that around `right`.
pub open spec fn link_near(t: Seq<Seq<Seq<Cell>>>, left: Caret, right: Caret) -> Option<(int, int)> {
    match link_at_spec(t, left) {
        Some(span) => Some(span),
        None => link_at_spec(t, right),
    }
}

/// Whether a guessed space at `c` sits inside a number, a hyphenated
/// compound or a figure with its sign, judged from the cell beyond it.
pub open spec fn bridges_construct(t: Seq<Seq<Seq<Cell>>>, beyond: Option<Caret>) -> bool {
    match beyond {
        Some(b) => number_interior_at(t, b, true) || hyphen_interior_at(t, b) || number_suffix_at(
            t,
            b,
        ),
        None => false,
    }
}

/// Whether the cells at `left` and `right`, next to each other, belong to one
/// word for `w`/`b`/`e`.
///
/// The rules, most specific first: a link is one word, and its span is a
/// hard edge; a number or dotted identifier is one word; a proportion sign
/// joins the figure before it; a hyphenated compound is one word; an
/// abbreviation is one word, and its span is a hard edge; a guessed space
/// inside a number, compound or figure does not break it; otherwise letters,
/// digits and `_` run together, and so does punctuation, on one line only.
pub open spec fn same_run(t: Seq<Seq<Seq<Cell>>>, left: Caret, right: Caret) -> bool {
    let same_line = left.page == right.page && left.line == right.line;
    let link = link_near(t, left, right);
    let abbr = abbreviation_span(t, left);
    if same_line && link is Some && (within_span(left, link.unwrap()) || within_span(
        right,
        link.unwrap(),
    )) {
        within_span(left, link.unwrap()) && within_span(right, link.unwrap())
    } else if same_line && (number_interior_at(t, left, true) || number_interior_at(t, right, true)) {
        true
    } else if same_line && number_suffix_at(t, right) {
        true
    } else if same_line && (hyphen_interior_at(t, left) || hyphen_interior_at(t, right)) {
        true
    } else if same_line && abbr is Some && (within_span(left, abbr.unwrap()) || within_span(
        right,
        abbr.unwrap(),
    )) {
        within_span(left, abbr.unwrap()) && within_span(right, abbr.unwrap())
    } else if same_line && synthetic_at(t, right) && bridges_construct(t, next_on_line(t, right)) {
        true
    } else if same_line && synthetic_at(t, left) && bridges_construct(t, prev_on_line(t, left)) {
        true
    } else {
        match (class_at(t, left), class_at(t, right)) {
            (Some(a), Some(b)) => same_line && ((a is Word && b is Word) || (a is Punctuation
                && b is Punctuation)),
            _ => false,
        }
    }
}

impl DocumentText {
    /// Whether a guessed space inside a number, compound or figure is bridged
    /// by the cell beyond it.
    fn bridges(&self, beyond: Option<Caret>) -> (r: bool)
        ensures
            r == bridges_construct(self.text(), beyond),
    {
        match beyond {
            Some(b) => self.is_number_interior(b) || self.is_hyphen_interior(b)
                || self.is_number_suffix_at(b),
            None => false,
        }
    }

    /// Whether the cells at `left` and `right`, next to each other, belong to
    /// one word for `w`/`b`/`e`.
    pub fn same_word_run(&self, left: Caret, right: Caret) -> (r: bool)
        requires
            well_spaced(self.text()),
        ensures
            r == same_run(self.text(), left, right),
    {
        let same_line = left.page == right.page && left.line == right.line;
        // A link is one word, and its span is a hard edge in both directions.
        // The link around `right` is consulted too, because a link stitched
        // across a real space is not found from the space cell itself.
        if same_line {
            let span = match self.link_at(left) {
                Some(span) => Some(span),
                None => self.link_at(right),
            };
            if let Some((lo, hi)) = span {
                let left_in = left.cell >= lo && left.cell <= hi;
                let right_in = right.cell >= lo && right.cell <= hi;
                if left_in || right_in {
                    return left_in && right_in;
                }
            }
        }
        // A number or dotted identifier is one word.
        if same_line && (self.is_number_interior(left) || self.is_number_interior(right)) {
            return true;
        }
        // A sign written tight against a figure belongs to it: `45.5%`.
        if same_line && self.is_number_suffix_at(right) {
            return true;
        }
        // A hyphenated compound is one word.
        if same_line && (self.is_hyphen_interior(left) || self.is_hyphen_interior(right)) {
            return true;
        }
        // An abbreviation is one word, stops included, and its span is a hard
        // edge, so the comma in `(e.g.,` keeps a stop of its own.
        if same_line {
            if let Some((lo, hi)) = self.abbreviation_at(left) {
                let left_in = left.cell >= lo && left.cell <= hi;
                let right_in = right.cell >= lo && right.cell <= hi;
                if left_in || right_in {
                    return left_in && right_in;
                }
            }
        }
        // A guessed space inside a number, compound or figure does not break
        // it; an ordinary gap flagged as guessed still ends the word.
        if same_line {
            if self.is_synthetic_space_at(right) {
                let beyond = self.next_cell_on_line(right);
                if self.bridges(beyond) {
                    return true;
                }
            }
            if self.is_synthetic_space_at(left) {
                let before = self.prev_cell_on_line(left);
                if self.bridges(before) {
                    return true;
                }
            }
        }
        let left_class = match self.word_class_at(left) {
            Some(class) => class,
            None => return false,
        };
        let right_class = match self.word_class_at(right) {
            Some(class) => class,
            None => return false,
        };
        crate::caret::continues_word_run(left_class, right_class, same_line)
    }
}

/// The first page with content from `p` on, if any, lies at or after `p`,
/// and every page in between has none.
pub proof fn lemma_content_page_from(t: Seq<Seq<Seq<Cell>>>, p: int)
    ensures
        match content_page_from(t, p) {
            Some(q) => 0 <= p <= q < t.len() && t[q].len() > 0,
            None => true,
        },
    decreases t.len() - p,
{
    if 0 <= p < t.len() && t[p].len() == 0 {
        lemma_content_page_from(t, p + 1);
    }
}

/// The last page with content before `p`, if any, lies before `p`.
pub proof fn lemma_content_page_before(t: Seq<Seq<Seq<Cell>>>, p: int)
    ensures
        match content_page_before(t, p) {
            Some(q) => 0 <= q < p && lines_of(t, q) > 0,
            None => true,
        },
    decreases p,
{
    if p > 0 && lines_of(t, p - 1) == 0 {
        lemma_content_page_before(t, p - 1);
    }
}

/// Stepping forward moves to a later position in document order: a later
/// page, a later line of the page, or a later cell of the line.
pub proof fn lemma_next_pos_advances(t: Seq<Seq<Seq<Cell>>>, c: Caret)
    requires
        bounded(t),
    ensures
        match next_pos(t, c) {
            Some(n) => (c.page < n.page < t.len()) || (n.page == c.page && c.line < n.line
                < lines_of(t, c.page as int)) || (n.page == c.page && n.line == c.line && c.cell
                < n.cell < cells_of(t, c.page as int, c.line as int)),
            None => true,
        },
{
    lemma_content_page_from(t, c.page + 1);
}

/// Stepping back moves to an earlier position in document order.
pub proof fn lemma_prev_pos_retreats(t: Seq<Seq<Seq<Cell>>>, c: Caret)
    ensures
        match prev_pos(t, c) {
            Some(p) => p.page < c.page || (p.page == c.page && p.line < c.line) || (p.page
                == c.page && p.line == c.line && p.cell < c.cell),
            None => true,
        },
{
    lemma_content_page_before(t, c.page as int);
}

/// The first position from `c` on, stepping forward, whose cell is not white
/// space; `None` when a position without a cell or the end of the document
/// comes first.
pub open spec fn target_from(t: Seq<Seq<Seq<Cell>>>, c: Caret) -> Option<Caret>
    decreases t.len() - c.page, lines_of(t, c.page as int) - c.line, cells_of(
        t,
        c.page as int,
        c.line as int,
    ) - c.cell,
    when bounded(t)
{
    match class_at(t, c) {
        None => None,
        Some(class) => if !(class is Whitespace) {
            Some(c)
        } else {
            match next_pos(t, c) {
                None => None,
                Some(n) => {
                    proof {
                        lemma_next_pos_advances(t, c);
                    }
                    target_from(t, n)
                },
            }
        },
    }
}

/// The first position from `c` on, stepping back, whose cell is not white
/// space.
pub open spec fn target_back_from(t: Seq<Seq<Seq<Cell>>>, c: Caret) -> Option<Caret>
    decreases c.page, c.line, c.cell,
{
    match class_at(t, c) {
        None => None,
        Some(class) => if !(class is Whitespace) {
            Some(c)
        } else {
            match prev_pos(t, c) {
                None => None,
                Some(p) => {
                    proof {
                        lemma_prev_pos_retreats(t, c);
                    }
                    target_back_from(t, p)
                },
            }
        },
    }
}

/// The last position of the word run that `c` starts or continues.
pub open spec fn run_end(t: Seq<Seq<Seq<Cell>>>, c: Caret) -> Caret
    decreases t.len() - c.page, lines_of(t, c.page as int) - c.line, cells_of(
        t,
        c.page as int,
        c.line as int,
    ) - c.cell,
    when bounded(t)
{
    match next_pos(t, c) {
        None => c,
        Some(n) => if !same_run(t, c, n) {
            c
        } else {
            proof {
                lemma_next_pos_advances(t, c);
            }
            run_end(t, n)
        },
    }
}

/// The first position of the word run that `c` ends or continues.
pub open spec fn run_start(t: Seq<Seq<Seq<Cell>>>, c: Caret) -> Caret
    decreases c.page, c.line, c.cell,
{
    match prev_pos(t, c) {
        None => c,
        Some(p) => if !same_run(t, p, c) {
            c
        } else {
            proof {
                lemma_prev_pos_retreats(t, c);
            }
            run_start(t, p)
        },
    }
}

/// The first position after `pos` that is not in the same word run as
/// `start`; `None` at the end of the document.
pub open spec fn past_run(t: Seq<Seq<Seq<Cell>>>, start: Caret, pos: Caret) -> Option<Caret>
    decreases t.len() - pos.page, lines_of(t, pos.page as int) - pos.line, cells_of(
        t,
        pos.page as int,
        pos.line as int,
    ) - pos.cell,
    when bounded(t)
{
    match next_pos(t, pos) {
        None => None,
        Some(n) => if !same_run(t, start, n) {
            Some(n)
        } else {
            proof {
                lemma_next_pos_advances(t, pos);
            }
            past_run(t, start, n)
        },
    }
}

/// Where `w` takes the caret from `c`: past the rest of the word (or the
/// white space) it is on, to the first cell that is not white space.
pub open spec fn next_word_start(t: Seq<Seq<Seq<Cell>>>, c: Caret) -> Option<Caret> {
    match class_at(t, c) {
        None => None,
        Some(class) => {
            let pos = if !(class is Whitespace) {
                past_run(t, c, c)
            } else {
                next_pos(t, c)
            };
            match pos {
                None => None,
                Some(p) => target_from(t, p),
            }
        },
    }
}

/// Where `b` takes the caret from `c`: to the start of the word it is in,
/// or, from the start of a word or from white space, to the start of the
/// word before.
pub open spec fn prev_word_start(t: Seq<Seq<Seq<Cell>>>, c: Caret) -> Option<Caret> {
    match class_at(t, c) {
        None => None,
        Some(class) => if !(class is Whitespace) && run_start(t, c) != c {
            Some(run_start(t, c))
        } else {
            match prev_pos(t, c) {
                None => None,
                Some(p) => match target_back_from(t, p) {
                    None => None,
                    Some(q) => Some(run_start(t, q)),
                },
            }
        },
    }
}

impl DocumentText {
    /// The first position from `caret` on, stepping forward, whose cell is
    /// not white space.
    pub fn next_word_target_from(&self, from: Caret) -> (r: Option<Caret>)
        ensures
            r == target_from(self.text(), from),
    {
        let mut caret = from;
        proof {
            self.lemma_bounded();
        }
        loop
            invariant
                bounded(self.text()),
                target_from(self.text(), caret) == target_from(self.text(), from),
            decreases self.text().len() - caret.page, lines_of(self.text(), caret.page as int)
                - caret.line, cells_of(self.text(), caret.page as int, caret.line as int)
                - caret.cell,
        {
            let class = match self.word_class_at(caret) {
                Some(class) => class,
                None => return None,
            };
            if crate::caret::is_word_target(class) {
                return Some(caret);
            }
            proof {
                lemma_next_pos_advances(self.text(), caret);
            }
            caret = match self.next_cell(caret) {
                Some(next) => next,
                None => return None,
            };
        }
    }
}

impl DocumentText {
    /// The first position from `from` on, stepping back, whose cell is not
    /// white space.
    pub fn prev_word_target_from(&self, from: Caret) -> (r: Option<Caret>)
        ensures
            r == target_back_from(self.text(), from),
    {
        let mut caret = from;
        loop
            invariant
                target_back_from(self.text(), caret) == target_back_from(self.text(), from),
            decreases caret.page, caret.line, caret.cell,
        {
            let class = match self.word_class_at(caret) {
                Some(class) => class,
                None => return None,
            };
            if crate::caret::is_word_target(class) {
                return Some(caret);
            }
            proof {
                lemma_prev_pos_retreats(self.text(), caret);
            }
            caret = match self.prev_cell(caret) {
                Some(prev) => prev,
                None => return None,
            };
        }
    }

    /// The last position of the word run that `from` starts or continues.
    pub fn word_run_end(&self, from: Caret) -> (r: Caret)
        requires
            well_spaced(self.text()),
        ensures
            r == run_end(self.text(), from),
    {
        proof {
            self.lemma_bounded();
        }
        let mut caret = from;
        loop
            invariant
                bounded(self.text()),
                well_spaced(self.text()),
                run_end(self.text(), caret) == run_end(self.text(), from),
            decreases self.text().len() - caret.page, lines_of(self.text(), caret.page as int)
                - caret.line, cells_of(self.text(), caret.page as int, caret.line as int)
                - caret.cell,
        {
            let next = match self.next_cell(caret) {
                Some(next) => next,
                None => return caret,
            };
            if !self.same_word_run(caret, next) {
                return caret;
            }
            proof {
                lemma_next_pos_advances(self.text(), caret);
            }
            caret = next;
        }
    }

    /// The first position of the word run that `from` ends or continues.
    pub fn word_run_start(&self, from: Caret) -> (r: Caret)
        requires
            well_spaced(self.text()),
        ensures
            r == run_start(self.text(), from),
    {
        let mut caret = from;
        loop
            invariant
                well_spaced(self.text()),
                run_start(self.text(), caret) == run_start(self.text(), from),
            decreases caret.page, caret.line, caret.cell,
        {
            let prev = match self.prev_cell(caret) {
                Some(prev) => prev,
                None => return caret,
            };
            if !self.same_word_run(prev, caret) {
                return caret;
            }
            proof {
                lemma_prev_pos_retreats(self.text(), caret);
            }
            caret = prev;
        }
    }

    /// The first position after `from` that is not in the same word run as
    /// `start`.
    fn skip_run(&self, start: Caret, from: Caret) -> (r: Option<Caret>)
        requires
            well_spaced(self.text()),
        ensures
            r == past_run(self.text(), start, from),
    {
        proof {
            self.lemma_bounded();
        }
        let mut pos = from;
        loop
            invariant
                bounded(self.text()),
                well_spaced(self.text()),
                past_run(self.text(), start, pos) == past_run(self.text(), start, from),
            decreases self.text().len() - pos.page, lines_of(self.text(), pos.page as int)
                - pos.line, cells_of(self.text(), pos.page as int, pos.line as int) - pos.cell,
        {
            let next = match self.next_cell(pos) {
                Some(next) => next,
                None => return None,
            };
            if !self.same_word_run(start, next) {
                return Some(next);
            }
            proof {
                lemma_next_pos_advances(self.text(), pos);
            }
            pos = next;
        }
    }

    /// `w`: move `caret` to the start of the next word; `false`, leaving it
    /// alone, when there is none.
    pub fn step_next_word_start(&self, caret: &mut Caret) -> (moved: bool)
        requires
            well_spaced(self.text()),
        ensures
            match next_word_start(self.text(), *old(caret)) {
                Some(n) => moved && *final(caret) == n,
                None => !moved && *final(caret) == *old(caret),
            },
    {
        let current = match self.word_class_at(*caret) {
            Some(class) => class,
            None => return false,
        };
        let pos = if crate::caret::is_word_target(current) {
            self.skip_run(*caret, *caret)
        } else {
            self.next_cell(*caret)
        };
        let pos = match pos {
            Some(pos) => pos,
            None => return false,
        };
        match self.next_word_target_from(pos) {
            Some(target) => {
                *caret = target;
                true
            },
            None => false,
        }
    }

    /// `b`: move `caret` to the start of the word it is in, or, from the
    /// start of a word or from white space, to the start of the word before;
    /// `false`, leaving it alone, when there is none.
    pub fn step_prev_word_start(&self, caret: &mut Caret) -> (moved: bool)
        requires
            well_spaced(self.text()),
        ensures
            match prev_word_start(self.text(), *old(caret)) {
                Some(p) => moved && *final(caret) == p,
                None => !moved && *final(caret) == *old(caret),
            },
    {
        let current = match self.word_class_at(*caret) {
            Some(class) => class,
            None => return false,
        };
        if crate::caret::is_word_target(current) {
            let start = self.word_run_start(*caret);
            if start != *caret {
                *caret = start;
                return true;
            }
        }
        let prev = match self.prev_cell(*caret) {
            Some(prev) => prev,
            None => return false,
        };
        let target = match self.prev_word_target_from(prev) {
            Some(target) => target,
            None => return false,
        };
        *caret = self.word_run_start(target);
        true
    }
}

/// Whether `a` comes before `b` in document order: page, then line, then
/// cell.
pub open spec fn precedes(a: Caret, b: Caret) -> bool {
    a.page < b.page || (a.page == b.page && a.line < b.line) || (a.page == b.page && a.line
        == b.line && a.cell < b.cell)
}

/// The target found stepping forward from `p` is `p` itself or comes after
/// it, and is not white space.
proof fn lemma_target_from_forward(t: Seq<Seq<Seq<Cell>>>, p: Caret)
    requires
        bounded(t),
    ensures
        match target_from(t, p) {
            Some(q) => (q == p || precedes(p, q)) && class_at(t, q) is Some && !(class_at(
                t,
                q,
            ).unwrap() is Whitespace),
            None => true,
        },
    decreases t.len() - p.page, lines_of(t, p.page as int) - p.line, cells_of(
        t,
        p.page as int,
        p.line as int,
    ) - p.cell,
{
    match class_at(t, p) {
        None => {},
        Some(class) => if class is Whitespace {
            lemma_next_pos_advances(t, p);
            match next_pos(t, p) {
                None => {},
                Some(n) => lemma_target_from_forward(t, n),
            }
        },
    }
}

/// The position found past a run comes after where the search started.
proof fn lemma_past_run_forward(t: Seq<Seq<Seq<Cell>>>, start: Caret, pos: Caret)
    requires
        bounded(t),
    ensures
        match past_run(t, start, pos) {
            Some(n) => precedes(pos, n),
            None => true,
        },
    decreases t.len() - pos.page, lines_of(t, pos.page as int) - pos.line, cells_of(
        t,
        pos.page as int,
        pos.line as int,
    ) - pos.cell,
{
    lemma_next_pos_advances(t, pos);
    match next_pos(t, pos) {
        None => {},
        Some(n) => if same_run(t, start, n) {
            lemma_past_run_forward(t, start, n);
        },
    }
}

/// `w` always moves forward, and lands on a cell that is not white space.
pub proof fn lemma_next_word_start_moves_forward(t: Seq<Seq<Seq<Cell>>>, c: Caret)
    requires
        bounded(t),
    ensures
        match next_word_start(t, c) {
            Some(n) => precedes(c, n) && class_at(t, n) is Some && !(class_at(
                t,
                n,
            ).unwrap() is Whitespace),
            None => true,
        },
{
    match class_at(t, c) {
        None => {},
        Some(class) => {
            lemma_next_pos_advances(t, c);
            lemma_past_run_forward(t, c, c);
            let pos = if !(class is Whitespace) {
                past_run(t, c, c)
            } else {
                next_pos(t, c)
            };
            match pos {
                None => {},
                Some(p) => lemma_target_from_forward(t, p),
            }
        },
    }
}

/// The start of a run is at or before the position it was found from, and
/// is the start of its own run.
proof fn lemma_run_start_back(t: Seq<Seq<Seq<Cell>>>, c: Caret)
    ensures
        run_start(t, c) == c || precedes(run_start(t, c), c),
        run_start(t, run_start(t, c)) == run_start(t, c),
    decreases c.page, c.line, c.cell,
{
    lemma_prev_pos_retreats(t, c);
    match prev_pos(t, c) {
        None => {},
        Some(p) => if same_run(t, p, c) {
            lemma_run_start_back(t, p);
        },
    }
}

/// The target found stepping back from `p` is `p` itself or comes before it.
proof fn lemma_target_back(t: Seq<Seq<Seq<Cell>>>, p: Caret)
    ensures
        match target_back_from(t, p) {
            Some(q) => q == p || precedes(q, p),
            None => true,
        },
    decreases p.page, p.line, p.cell,
{
    match class_at(t, p) {
        None => {},
        Some(class) => if class is Whitespace {
            lemma_prev_pos_retreats(t, p);
            match prev_pos(t, p) {
                None => {},
                Some(n) => lemma_target_back(t, n),
            }
        },
    }
}

/// `b` always moves back, and lands on the start of a word run.
pub proof fn lemma_prev_word_start_moves_back(t: Seq<Seq<Seq<Cell>>>, c: Caret)
    ensures
        match prev_word_start(t, c) {
            Some(p) => precedes(p, c) && run_start(t, p) == p,
            None => true,
        },
{
    lemma_run_start_back(t, c);
    lemma_prev_pos_retreats(t, c);
    match prev_pos(t, c) {
        None => {},
        Some(p) => {
            lemma_target_back(t, p);
            match target_back_from(t, p) {
                None => {},
                Some(q) => lemma_run_start_back(t, q),
            }
        },
    }
}

/// Where line motion down takes a mark: the next line of the page, or the
/// first line of the next page with content.
pub open spec fn line_below(t: Seq<Seq<Seq<Cell>>>, m: LineMark) -> Option<LineMark> {
    if m.line + 1 < lines_of(t, m.page as int) {
        Some(LineMark { page: m.page, line: (m.line + 1) as usize })
    } else {
        match content_page_from(t, m.page + 1) {
            Some(p) => Some(LineMark { page: p as usize, line: 0 }),
            None => None,
        }
    }
}

/// Where line motion up takes a mark: the previous line of the page, or the
/// last line of the previous page with content.
pub open spec fn line_above(t: Seq<Seq<Seq<Cell>>>, m: LineMark) -> Option<LineMark> {
    if m.line > 0 {
        Some(LineMark { page: m.page, line: (m.line - 1) as usize })
    } else {
        match content_page_before(t, m.page as int) {
            Some(p) => Some(LineMark { page: p as usize, line: less_one(lines_of(t, p)) as usize }),
            None => None,
        }
    }
}

/// The word run around `caret`, as a mark on its line.
pub open spec fn word_mark_of(t: Seq<Seq<Seq<Cell>>>, caret: Caret) -> WordMark {
    WordMark {
        page: caret.page,
        line: caret.line,
        start_cell: run_start(t, caret).cell,
        end_cell: run_end(t, caret).cell,
    }
}

impl DocumentText {
    /// Move a line mark down one line, crossing to the next page with
    /// content; `false`, leaving it alone, at the last line of the document.
    pub fn line_step_down(&self, mark: &mut LineMark) -> (moved: bool)
        ensures
            match line_below(self.text(), *old(mark)) {
                Some(m) => moved && *final(mark) == m,
                None => !moved && *final(mark) == *old(mark),
            },
    {
        let lines = self.page_line_count(mark.page);
        if lines > 0 && mark.line < lines - 1 {
            mark.line = mark.line + 1;
            return true;
        }
        if let Some(next) = self.next_content_page(mark.page) {
            mark.page = next;
            mark.line = 0;
            return true;
        }
        false
    }

    /// Move a line mark up one line, crossing to the last line of the previous
    /// page with content; `false`, leaving it alone, at the first line.
    pub fn line_step_up(&self, mark: &mut LineMark) -> (moved: bool)
        ensures
            match line_above(self.text(), *old(mark)) {
                Some(m) => moved && *final(mark) == m,
                None => !moved && *final(mark) == *old(mark),
            },
    {
        if mark.line > 0 {
            mark.line = mark.line - 1;
            return true;
        }
        if let Some(prev) = self.prev_content_page(mark.page) {
            mark.page = prev;
            mark.line = self.page_line_count(prev).saturating_sub(1);
            return true;
        }
        false
    }

    /// A word mark from a landed caret: the full word run around it.
    pub fn word_mark_from_caret(&self, caret: Caret) -> (m: WordMark)
        requires
            well_spaced(self.text()),
        ensures
            m == word_mark_of(self.text(), caret),
    {
        let start = self.word_run_start(caret);
        let end = self.word_run_end(caret);
        WordMark { page: caret.page, line: caret.line, start_cell: start.cell, end_cell: end.cell }
    }

    /// A caret at the mark's first cell — the representative position used
    /// to drive the shared caret motion.
    pub fn word_mark_caret(mark: WordMark) -> (c: Caret)
        ensures
            c == (Caret { page: mark.page, line: mark.line, cell: mark.start_cell }),
    {
        Caret { page: mark.page, line: mark.line, cell: mark.start_cell }
    }
}


impl DocumentText {
    /// Whether no line opens with a blank cell directly followed by `.` or
    /// `/`, and every paragraph group is an inclusive range of its page's
    /// lines: what every word, sentence and scope step asks of the text.
    pub fn is_well_formed(&self) -> (r: bool)
        ensures
            r == (well_spaced(self.text()) && self.paragraphs_fit()),
    {
        let ghost t = self.text();
        let mut p: usize = 0;
        while p < self.pages.len()
            invariant
                t == self.text(),
                p <= self.pages@.len(),
                forall|a: int, q: int|
                    0 <= a < p && 0 <= q < t[a].len() && t[a][q].len() >= 2 ==> !(blank_cell(
                        #[trigger] t[a][q][0],
                    ) && opens_continuation(t[a][q][1])),
            decreases self.pages@.len() - p,
        {
            let page = &self.pages[p];
            let mut q: usize = 0;
            while q < page.len()
                invariant
                    t == self.text(),
                    p < self.pages@.len(),
                    page == self.pages@[p as int],
                    q <= page@.len(),
                    forall|a: int, b: int|
                        0 <= a < p && 0 <= b < t[a].len() && t[a][b].len() >= 2 ==> !(blank_cell(
                            #[trigger] t[a][b][0],
                        ) && opens_continuation(t[a][b][1])),
                    forall|b: int|
                        0 <= b < q && t[p as int][b].len() >= 2 ==> !(blank_cell(
                            #[trigger] t[p as int][b][0],
                        ) && opens_continuation(t[p as int][b][1])),
                decreases page@.len() - q,
            {
                let line = &page[q];
                assert(t[p as int][q as int] == line@);
                if line.len() >= 2 && is_blank_cell(&line[0]) && (line[1].kind == CellKind::Char('.')
                    || line[1].kind == CellKind::Char('/')) {
                    assert(!well_spaced(t)) by {
                        assert(blank_cell(t[p as int][q as int][0]));
                    }
                    return false;
                }
                q = q + 1;
            }
            p = p + 1;
        }
        let ghost s = self.paragraphs@.map_values(|v: Vec<(usize, usize)>| v@);
        let mut p: usize = 0;
        while p < self.paragraphs.len()
            invariant
                t == self.text(),
                well_spaced(t),
                s == self.paragraphs@.map_values(|v: Vec<(usize, usize)>| v@),
                p <= self.paragraphs@.len(),
                forall|a: int, k: int|
                    #![trigger s[a][k]]
                    0 <= a < p && 0 <= k < s[a].len() ==> s[a][k].0 <= s[a][k].1 < lines_of(t, a),
            decreases self.paragraphs@.len() - p,
        {
            let groups = &self.paragraphs[p];
            let lines: usize = if p < self.pages.len() {
                self.pages[p].len()
            } else {
                0
            };
            assert(lines == lines_of(t, p as int));
            let mut k: usize = 0;
            while k < groups.len()
                invariant
                    t == self.text(),
                    s == self.paragraphs@.map_values(|v: Vec<(usize, usize)>| v@),
                    p < self.paragraphs@.len(),
                    groups == self.paragraphs@[p as int],
                    lines == lines_of(t, p as int),
                    k <= groups@.len(),
                    forall|a: int, j: int|
                        #![trigger s[a][j]]
                        0 <= a < p && 0 <= j < s[a].len() ==> s[a][j].0 <= s[a][j].1 < lines_of(t, a),
                    forall|j: int|
                        #![trigger s[p as int][j]]
                        0 <= j < k ==> s[p as int][j].0 <= s[p as int][j].1 < lines,
                decreases groups@.len() - k,
            {
                let (a, b) = groups[k];
                assert(s[p as int][k as int] == (a, b));
                if !(a <= b && b < lines) {
                    return false;
                }
                k = k + 1;
            }
            p = p + 1;
        }
        true
    }
}

/// The known abbreviations are exactly al, approx, ca, cf, et, etc, ibid,
/// op, resp, seq, viz, vs, the references into a document (app, ch, fig, no,
/// p, pp, sec, tab, vol, ...), the bibliographic ones (ed, rev, trans, ...),
/// titles (dr, mr, mrs, prof, ...), months and days, and co, corp, dept, est,
/// excl, incl, inc, ltd, max, min, univ: a token, with or without its
/// closing full stop, is a known abbreviation exactly when its lower-cased
/// body is one of these (88) words.
pub proof fn lemma_known_abbreviations(token: Seq<char>)
    ensures
        known_abbreviation(token) == (lowercase_chars(strip_stop(token)).len() > 0 && seq![
            "al"@, "approx"@, "ca"@, "cf"@, "et"@, "etc"@, "ibid"@, "op"@, "resp"@, "seq"@, "viz"@, "vs"@, "app"@, "ch"@, "chap"@, "eq"@, "eqs"@, "fig"@, "figs"@, "no"@, "nos"@, "p"@, "para"@, "pp"@, "pt"@, "ref"@, "refs"@, "sec"@, "secs"@, "tab"@, "tabs"@, "vol"@, "vols"@, "ed"@, "eds"@, "orig"@, "repr"@, "rev"@, "suppl"@, "trans"@, "transl"@, "capt"@, "col"@, "dr"@, "gen"@, "hon"@, "jr"@, "lt"@, "mr"@, "mrs"@, "ms"@, "prof"@, "sgt"@, "sr"@, "st"@, "jan"@, "feb"@, "mar"@, "apr"@, "jun"@, "jul"@, "aug"@, "sep"@, "sept"@, "oct"@, "nov"@, "dec"@, "mon"@, "tue"@, "tues"@, "wed"@, "thu"@, "thur"@, "thurs"@, "fri"@, "sat"@, "sun"@, "co"@, "corp"@, "dept"@, "est"@, "excl"@, "incl"@, "inc"@, "ltd"@, "max"@, "min"@, "univ"@,
        ].contains(lowercase_chars(strip_stop(token)))),
        known_abbreviation(token) ==> abbreviation(token),
{
    let listed = seq![
            "al"@, "approx"@, "ca"@, "cf"@, "et"@, "etc"@, "ibid"@, "op"@, "resp"@, "seq"@, "viz"@, "vs"@, "app"@, "ch"@, "chap"@, "eq"@, "eqs"@, "fig"@, "figs"@, "no"@, "nos"@, "p"@, "para"@, "pp"@, "pt"@, "ref"@, "refs"@, "sec"@, "secs"@, "tab"@, "tabs"@, "vol"@, "vols"@, "ed"@, "eds"@, "orig"@, "repr"@, "rev"@, "suppl"@, "trans"@, "transl"@, "capt"@, "col"@, "dr"@, "gen"@, "hon"@, "jr"@, "lt"@, "mr"@, "mrs"@, "ms"@, "prof"@, "sgt"@, "sr"@, "st"@, "jan"@, "feb"@, "mar"@, "apr"@, "jun"@, "jul"@, "aug"@, "sep"@, "sept"@, "oct"@, "nov"@, "dec"@, "mon"@, "tue"@, "tues"@, "wed"@, "thu"@, "thur"@, "thurs"@, "fri"@, "sat"@, "sun"@, "co"@, "corp"@, "dept"@, "est"@, "excl"@, "incl"@, "inc"@, "ltd"@, "max"@, "min"@, "univ"@,
        ];
    assert(abbreviation_list() =~= listed);
}
} // verus!
