//! The scope machinery shared by focus and visual mode: what a position
//! covers at a scope, where a position carried over from another scope
//! lands, and one step of a scope along the reading order.
//!
//! An object that is one unit at a scope (an image at word scope, a table
//! or an equation from line scope up) is covered whole, landed on at its
//! start, and costs one step however many lines it runs to. Char scope has
//! no units: it is the way into everything.
//!
//! Each scope also moves across the reading order: by the goal column for
//! char and word motion, and from column to column for line, sentence and
//! paragraph motion on multi-column pages. Those moves are measured on the
//! page's geometry and are not made here.

use vstd::prelude::*;

use crate::caret::{Caret, ContentObject, Landing, LineMark, ObjectId, ParagraphMark, Scope};
use crate::object_policy::ObjectTraits;
use crate::paragraphs::{containing, paragraph_after, paragraph_before};
use crate::caret::{holds_line, lemma_object_at, lemma_object_at_first, object_at};
use crate::sentences::{
    mark_start, page_objects, region, sentence_after, sentence_before, sentence_end, sentence_mark,
    sentence_start,
};
use crate::words::{
    cells_of, less_one, line_above, line_below, next_pos, next_word_start, prev_pos,
    prev_word_start, run_end, run_start, target_from, well_spaced, DocumentText,
};

verus! {

/// How many further steps a unit may take to leave the object it started in
/// before the motion gives up.
pub const MAX_ATOMIC_STEPS: usize = 4096;

/// Whether an object of kind `kind` is one stop at `scope`: at word scope an
/// atomic one, from line scope up a block; nothing at char scope.
pub open spec fn counts_at(kind: ObjectTraits, scope: Scope) -> bool {
    match scope {
        Scope::Char => false,
        Scope::Word => kind.atomic,
        Scope::Line | Scope::Sentence | Scope::Paragraph => kind.block,
    }
}

/// The object holding `line` of `page`, if it is one stop at `scope`.
pub open spec fn unit_object(
    o: Seq<Seq<ContentObject>>,
    page: int,
    line: int,
    scope: Scope,
) -> Option<ContentObject> {
    match region(o, page, line) {
        Some(ob) => if counts_at(ob.kind, scope) {
            Some(ob)
        } else {
            None
        },
        None => None,
    }
}

/// The identity of the unit `at` lies in at `scope`, if any.
pub open spec fn unit_id(o: Seq<Seq<ContentObject>>, at: Caret, scope: Scope) -> Option<ObjectId> {
    match unit_object(o, at.page as int, at.line as int, scope) {
        Some(ob) => Some(ObjectId { page: at.page, start_line: ob.start_line }),
        None => None,
    }
}

/// The canonical position of object `ob` of `page`: its first cell, or the
/// last cell of its last line.
pub open spec fn landing(
    t: Seq<Seq<Seq<crate::caret::Cell>>>,
    page: usize,
    ob: ContentObject,
    land: Landing,
) -> Caret {
    match land {
        Landing::Start => Caret { page, line: ob.start_line, cell: 0 },
        Landing::End => Caret {
            page,
            line: ob.end_line,
            cell: less_one(cells_of(t, page as int, ob.end_line as int)) as usize,
        },
    }
}

/// `at`, moved to the start of the unit of `scope` it lies in, if any.
pub open spec fn landed(
    t: Seq<Seq<Seq<crate::caret::Cell>>>,
    o: Seq<Seq<ContentObject>>,
    at: Caret,
    scope: Scope,
    land: Landing,
) -> Caret {
    match unit_object(o, at.page as int, at.line as int, scope) {
        Some(ob) => landing(t, at.page, ob, land),
        None => at,
    }
}

/// The first and last position of line `line` of `page`.
pub open spec fn line_span(t: Seq<Seq<Seq<crate::caret::Cell>>>, page: usize, line: usize) -> (
    Caret,
    Caret,
) {
    (
        Caret { page, line, cell: 0 },
        Caret { page, line, cell: less_one(cells_of(t, page as int, line as int)) as usize },
    )
}

/// The inclusive range of positions `at` covers at `scope`.
pub open spec fn span_of(
    t: Seq<Seq<Seq<crate::caret::Cell>>>,
    o: Seq<Seq<ContentObject>>,
    s: Seq<Seq<(usize, usize)>>,
    at: Caret,
    scope: Scope,
) -> (Caret, Caret) {
    match unit_object(o, at.page as int, at.line as int, scope) {
        Some(ob) => (landing(t, at.page, ob, Landing::Start), landing(t, at.page, ob, Landing::End)),
        None => match scope {
            Scope::Char => (at, at),
            Scope::Word => (run_start(t, at), run_end(t, at)),
            Scope::Line => line_span(t, at.page, at.line),
            Scope::Sentence => (sentence_start(t, o, at), sentence_end(t, o, at)),
            Scope::Paragraph => match containing(o, s, at.page as int, at.line as int) {
                Some(p) => (
                    Caret { page: at.page, line: p.start_line, cell: 0 },
                    line_span(t, at.page, p.end_line).1,
                ),
                None => (at, at),
            },
        },
    }
}

/// Where `at` lands when it crosses into `scope`: the start of the unit it
/// lies in.
pub open spec fn snapped(
    t: Seq<Seq<Seq<crate::caret::Cell>>>,
    o: Seq<Seq<ContentObject>>,
    s: Seq<Seq<(usize, usize)>>,
    at: Caret,
    scope: Scope,
) -> Caret {
    match unit_object(o, at.page as int, at.line as int, scope) {
        Some(ob) => landing(t, at.page, ob, Landing::Start),
        None => match scope {
            Scope::Char => at,
            Scope::Word => run_start(
                t,
                match target_from(t, at) {
                    Some(x) => x,
                    None => at,
                },
            ),
            Scope::Line => Caret { page: at.page, line: at.line, cell: 0 },
            Scope::Sentence => sentence_start(t, o, at),
            Scope::Paragraph => match containing(o, s, at.page as int, at.line as int) {
                Some(p) => Caret { page: at.page, line: p.start_line, cell: 0 },
                None => at,
            },
        },
    }
}

/// One step of `scope` along the reading order from `at`, forward or back:
/// whether it moved, and where the position is after it. A step that cannot
/// move still puts a line, sentence or paragraph position on the start of
/// its unit.
#[verifier::opaque]
pub open spec fn step_along(
    t: Seq<Seq<Seq<crate::caret::Cell>>>,
    o: Seq<Seq<ContentObject>>,
    s: Seq<Seq<(usize, usize)>>,
    at: Caret,
    scope: Scope,
    forward: bool,
) -> (bool, Caret) {
    match scope {
        Scope::Char => match if forward {
            next_pos(t, at)
        } else {
            prev_pos(t, at)
        } {
            Some(c) => (true, c),
            None => (false, at),
        },
        Scope::Word => match if forward {
            next_word_start(t, at)
        } else {
            prev_word_start(t, at)
        } {
            Some(c) => (true, c),
            None => (false, at),
        },
        Scope::Line => {
            let m = LineMark { page: at.page, line: at.line };
            match if forward {
                line_below(t, m)
            } else {
                line_above(t, m)
            } {
                Some(n) => (true, Caret { page: n.page, line: n.line, cell: 0 }),
                None => (false, Caret { page: at.page, line: at.line, cell: 0 }),
            }
        },
        Scope::Sentence => {
            let m = sentence_mark(t, o, at);
            match if forward {
                sentence_after(t, o, m)
            } else {
                sentence_before(t, o, m)
            } {
                Some(n) => (true, mark_start(n)),
                None => (false, mark_start(m)),
            }
        },
        Scope::Paragraph => match containing(o, s, at.page as int, at.line as int) {
            Some(p) => match if forward {
                paragraph_after(t, o, s, p)
            } else {
                paragraph_before(t, o, s, p)
            } {
                Some(n) => (true, Caret { page: n.page, line: n.start_line, cell: 0 }),
                None => (false, Caret { page: p.page, line: p.start_line, cell: 0 }),
            },
            None => (false, at),
        },
    }
}

/// Keep stepping from `at`, which a step has just reached, while the unit of
/// `scope` it lies in is still `from`, the one the motion started in; give up
/// after the `guard`-th further step passes [`MAX_ATOMIC_STEPS`].
pub open spec fn leave_unit(
    t: Seq<Seq<Seq<crate::caret::Cell>>>,
    o: Seq<Seq<ContentObject>>,
    s: Seq<Seq<(usize, usize)>>,
    at: Caret,
    scope: Scope,
    forward: bool,
    from: Option<ObjectId>,
    guard: nat,
) -> (bool, Caret)
    decreases MAX_ATOMIC_STEPS + 1 - guard,
{
    if unit_id(o, at, scope) != from {
        (true, landed(t, o, at, scope, Landing::Start))
    } else if guard + 1 > MAX_ATOMIC_STEPS {
        (false, landed(t, o, at, scope, Landing::Start))
    } else {
        let (moved, next) = step_along(t, o, s, at, scope, forward);
        if !moved {
            (false, landed(t, o, next, scope, Landing::Start))
        } else {
            leave_unit(t, o, s, next, scope, forward, from, guard + 1)
        }
    }
}

/// One step of `scope` along the reading order, an object that is one unit
/// at the scope counting as a single step and landed on at its start.
pub open spec fn unit_step_along(
    t: Seq<Seq<Seq<crate::caret::Cell>>>,
    o: Seq<Seq<ContentObject>>,
    s: Seq<Seq<(usize, usize)>>,
    at: Caret,
    scope: Scope,
    forward: bool,
) -> (bool, Caret) {
    if scope == Scope::Char {
        step_along(t, o, s, at, scope, forward)
    } else {
        let from = unit_id(o, at, scope);
        let (moved, next) = step_along(t, o, s, at, scope, forward);
        if !moved {
            (false, landed(t, o, next, scope, Landing::Start))
        } else if from is None {
            (true, landed(t, o, next, scope, Landing::Start))
        } else {
            leave_unit(t, o, s, next, scope, forward, from, 0)
        }
    }
}

/// How many times a motion with `count` repeats: once without a count, and
/// at least once with one.
pub open spec fn repetitions(count: Option<u32>) -> nat {
    match count {
        Some(n) => if n >= 1 {
            n as nat
        } else {
            1
        },
        None => 1,
    }
}

/// `at` after `n` unit steps of `scope` along the reading order, stopping
/// early at an edge of the document.
pub open spec fn unit_steps(
    t: Seq<Seq<Seq<crate::caret::Cell>>>,
    o: Seq<Seq<ContentObject>>,
    s: Seq<Seq<(usize, usize)>>,
    at: Caret,
    scope: Scope,
    forward: bool,
    n: nat,
) -> Caret
    decreases n,
{
    if n == 0 {
        at
    } else {
        let (moved, next) = unit_step_along(t, o, s, at, scope, forward);
        if moved {
            unit_steps(t, o, s, next, scope, forward, (n - 1) as nat)
        } else {
            next
        }
    }
}

/// The objects of each page are in line order, each an inclusive range of
/// lines, no two overlapping.
pub open spec fn objects_ordered(o: Seq<Seq<ContentObject>>) -> bool {
    forall|p: int, i: int, j: int|
        #![trigger o[p][i], o[p][j]]
        0 <= p < o.len() && 0 <= i < o[p].len() && 0 <= j < o[p].len() ==> o[p][i].start_line
            <= o[p][i].end_line && (i < j ==> o[p][i].end_line < o[p][j].start_line)
}

/// Landing on a unit is stable: a position already at the start of its unit
/// stays where it is.
pub proof fn lemma_landing_is_stable(
    t: Seq<Seq<Seq<crate::caret::Cell>>>,
    o: Seq<Seq<ContentObject>>,
    at: Caret,
    scope: Scope,
)
    requires
        objects_ordered(o),
    ensures
        landed(t, o, landed(t, o, at, scope, Landing::Start), scope, Landing::Start) == landed(
            t,
            o,
            at,
            scope,
            Landing::Start,
        ),
{
    let objs = page_objects(o, at.page as int);
    lemma_object_at(objs, at.line as int);
    if let Some(i) = object_at(objs, at.line as int) {
        let ob = objs[i];
        let p = at.page as int;
        assert(0 <= p < o.len());
        assert(objs == o[p]);
        assert(ob.start_line <= ob.end_line) by {
            assert(o[p][i] == ob);
        }
        assert forall|j: int| 0 <= j < i implies !holds_line(#[trigger] objs[j], ob.start_line as int) by {
            assert(o[p][j].end_line < o[p][i].start_line);
        }
        lemma_object_at_first(objs, ob.start_line as int, i);
    }
}

/// What leaving a unit arrives at is a position at the start of its unit.
proof fn lemma_leave_unit_lands(
    t: Seq<Seq<Seq<crate::caret::Cell>>>,
    o: Seq<Seq<ContentObject>>,
    s: Seq<Seq<(usize, usize)>>,
    at: Caret,
    scope: Scope,
    forward: bool,
    from: Option<ObjectId>,
    guard: nat,
)
    requires
        objects_ordered(o),
    ensures
        landed(t, o, leave_unit(t, o, s, at, scope, forward, from, guard).1, scope, Landing::Start)
            == leave_unit(t, o, s, at, scope, forward, from, guard).1,
    decreases MAX_ATOMIC_STEPS + 1 - guard,
{
    lemma_landing_is_stable(t, o, at, scope);
    if unit_id(o, at, scope) == from && guard + 1 <= MAX_ATOMIC_STEPS {
        let (moved, next) = step_along(t, o, s, at, scope, forward);
        lemma_landing_is_stable(t, o, next, scope);
        if moved {
            lemma_leave_unit_lands(t, o, s, next, scope, forward, from, guard + 1);
        }
    }
}

/// Motion never rests part-way through a unit: after a unit step of any
/// scope but char, the position is at the start of the unit it lies in, if
/// it lies in one.
pub proof fn lemma_unit_steps_rest_on_unit_starts(
    t: Seq<Seq<Seq<crate::caret::Cell>>>,
    o: Seq<Seq<ContentObject>>,
    s: Seq<Seq<(usize, usize)>>,
    at: Caret,
    scope: Scope,
    forward: bool,
)
    requires
        objects_ordered(o),
        scope != Scope::Char,
    ensures
        landed(t, o, unit_step_along(t, o, s, at, scope, forward).1, scope, Landing::Start)
            == unit_step_along(t, o, s, at, scope, forward).1,
{
    let (moved, next) = step_along(t, o, s, at, scope, forward);
    lemma_landing_is_stable(t, o, next, scope);
    if moved && unit_id(o, at, scope) is Some {
        lemma_leave_unit_lands(t, o, s, next, scope, forward, unit_id(o, at, scope), 0);
    }
}

/// Whether two unit identities are the same (or both absent).
fn same_unit(a: Option<ObjectId>, b: Option<ObjectId>) -> (r: bool)
    ensures
        r == (a == b),
{
    match (a, b) {
        (Some(x), Some(y)) => x.page == y.page && x.start_line == y.start_line,
        (None, None) => true,
        _ => false,
    }
}

impl DocumentText {
    /// The object holding `line` of `page`, if it is one stop at `scope`.
    ///
    /// At word scope only an atomic object counts, so `w` walks into a
    /// table's cells and a formula's terms while stepping over an image in
    /// one press. From line scope up a block counts too, so a table and an
    /// equation each become a single stop however many rows they run to.
    /// Char scope has no units at all.
    pub fn unit_object_at(&self, page: usize, line: usize, scope: Scope) -> (r: Option<
        ContentObject,
    >)
        ensures
            r == unit_object(self.object_table(), page as int, line as int, scope),
    {
        let object = match self.region_at(page, line) {
            Some(object) => object,
            None => return None,
        };
        let counts = match scope {
            Scope::Char => false,
            Scope::Word => object.kind.atomic,
            Scope::Line | Scope::Sentence | Scope::Paragraph => object.kind.block,
        };
        if counts {
            Some(object)
        } else {
            None
        }
    }

    /// The identity of the unit a caret lies in at `scope`, for "did we
    /// leave it yet" while stepping.
    pub fn unit_id_at(&self, at: Caret, scope: Scope) -> (r: Option<ObjectId>)
        ensures
            r == unit_id(self.object_table(), at, scope),
    {
        match self.unit_object_at(at.page, at.line, scope) {
            Some(object) => Some(ObjectId { page: at.page, start_line: object.start_line }),
            None => None,
        }
    }

    /// The canonical position of an object of `page`: its first cell, or
    /// the last cell of its last line.
    pub fn object_landing(&self, page: usize, object: ContentObject, land: Landing) -> (r: Caret)
        ensures
            r == landing(self.text(), page, object, land),
    {
        match land {
            Landing::Start => Caret { page, line: object.start_line, cell: 0 },
            Landing::End => {
                let cells = self.line_cell_count(page, object.end_line);
                Caret {
                    page,
                    line: object.end_line,
                    cell: if cells > 0 {
                        cells - 1
                    } else {
                        0
                    },
                }
            },
        }
    }

    /// If `caret` lies inside a unit of `scope`, move it to that unit's
    /// canonical position, so a caret never rests part-way through one.
    pub fn land_on_object(&self, caret: &mut Caret, scope: Scope, land: Landing)
        ensures
            *final(caret) == landed(self.text(), self.object_table(), *old(caret), scope, land),
    {
        if let Some(object) = self.unit_object_at(caret.page, caret.line, scope) {
            *caret = self.object_landing(caret.page, object, land);
        }
    }

    /// The inclusive range of positions `at` covers under `scope`.
    ///
    /// This is the whole of what a scope highlights. A focus highlight is
    /// the case of a selection with both ends at `at`, which is why one
    /// function serves both modes. A unit is covered whole.
    pub fn scope_span(&self, at: Caret, scope: Scope) -> (r: (Caret, Caret))
        requires
            well_spaced(self.text()),
            self.paragraphs_fit(),
        ensures
            r == span_of(self.text(), self.object_table(), self.segment_table(), at, scope),
    {
        if let Some(object) = self.unit_object_at(at.page, at.line, scope) {
            return (
                self.object_landing(at.page, object, Landing::Start),
                self.object_landing(at.page, object, Landing::End),
            );
        }
        match scope {
            Scope::Char => (at, at),
            Scope::Word => (self.word_run_start(at), self.word_run_end(at)),
            Scope::Line => {
                let cells = self.line_cell_count(at.page, at.line);
                let last = if cells > 0 {
                    cells - 1
                } else {
                    0
                };
                (
                    Caret { page: at.page, line: at.line, cell: 0 },
                    Caret { page: at.page, line: at.line, cell: last },
                )
            },
            Scope::Sentence => (self.sentence_run_start(at), self.sentence_run_end(at)),
            Scope::Paragraph => match self.paragraph_mark_containing(at.page, at.line) {
                Some(p) => {
                    let cells = self.line_cell_count(at.page, p.end_line);
                    let last = if cells > 0 {
                        cells - 1
                    } else {
                        0
                    };
                    (
                        Caret { page: at.page, line: p.start_line, cell: 0 },
                        Caret { page: at.page, line: p.end_line, cell: last },
                    )
                },
                None => (at, at),
            },
        }
    }

    /// Move `at` to the canonical start of the unit it lies in under
    /// `scope`.
    ///
    /// Applied when a position crosses into another scope, so a caret
    /// carried over from another granularity lands on a real unit rather
    /// than mid-word or on whitespace. Motion itself needs none of this: the
    /// steps already land on unit starts.
    pub fn snap_to_scope(&self, at: Caret, scope: Scope) -> (r: Caret)
        requires
            well_spaced(self.text()),
            self.paragraphs_fit(),
        ensures
            r == snapped(self.text(), self.object_table(), self.segment_table(), at, scope),
    {
        if let Some(object) = self.unit_object_at(at.page, at.line, scope) {
            return self.object_landing(at.page, object, Landing::Start);
        }
        match scope {
            Scope::Char => at,
            Scope::Word => {
                let target = match self.next_word_target_from(at) {
                    Some(target) => target,
                    None => at,
                };
                self.word_run_start(target)
            },
            Scope::Line => Caret { page: at.page, line: at.line, cell: 0 },
            Scope::Sentence => self.sentence_run_start(at),
            Scope::Paragraph => match self.paragraph_mark_containing(at.page, at.line) {
                Some(p) => Caret { page: at.page, line: p.start_line, cell: 0 },
                None => at,
            },
        }
    }

    /// Move `caret` one unit of `scope` along the reading order, forward or
    /// back. Returns `false` at an edge of the document, so a repeated
    /// motion can stop early.
    pub fn step_in_reading_order(&self, caret: &mut Caret, scope: Scope, forward: bool) -> (moved:
        bool)
        requires
            well_spaced(self.text()),
            self.paragraphs_fit(),
        ensures
            (moved, *final(caret)) == step_along(
                self.text(),
                self.object_table(),
                self.segment_table(),
                *old(caret),
                scope,
                forward,
            ),
    {
        proof {
            reveal(step_along);
        }
        match scope {
            Scope::Char => if forward {
                self.step_right(caret)
            } else {
                self.step_left(caret)
            },
            Scope::Word => if forward {
                self.step_next_word_start(caret)
            } else {
                self.step_prev_word_start(caret)
            },
            Scope::Line => {
                let mut mark = LineMark { page: caret.page, line: caret.line };
                let moved = if forward {
                    self.line_step_down(&mut mark)
                } else {
                    self.line_step_up(&mut mark)
                };
                *caret = Caret { page: mark.page, line: mark.line, cell: 0 };
                moved
            },
            Scope::Sentence => {
                let mut mark = self.sentence_mark_from_caret(*caret);
                let moved = if forward {
                    self.sentence_step_next(&mut mark)
                } else {
                    self.sentence_step_prev(&mut mark)
                };
                *caret = Caret { page: mark.page, line: mark.start_line, cell: mark.start_cell };
                moved
            },
            Scope::Paragraph => {
                let mut mark = match self.paragraph_mark_containing(caret.page, caret.line) {
                    Some(mark) => mark,
                    None => return false,
                };
                let moved = if forward {
                    self.paragraph_step_next(&mut mark)
                } else {
                    self.paragraph_step_prev(&mut mark)
                };
                *caret = Caret { page: mark.page, line: mark.start_line, cell: 0 };
                moved
            },
        }
    }

    /// Move `caret` one unit of `scope` along the reading order, counting
    /// whatever is a single unit at that scope as one step, and landing on
    /// its start.
    ///
    /// Still inside the object it started in, the motion keeps going until
    /// it leaves, so a whole table costs one step rather than one per line.
    /// A step need not make progress in document order, so the walk gives
    /// up after [`MAX_ATOMIC_STEPS`] further steps. Char scope passes
    /// straight through: that keeps a single number inside a table
    /// selectable.
    pub fn step_unit_in_reading_order(&self, caret: &mut Caret, scope: Scope, forward: bool) -> (moved:
        bool)
        requires
            well_spaced(self.text()),
            self.paragraphs_fit(),
        ensures
            (moved, *final(caret)) == unit_step_along(
                self.text(),
                self.object_table(),
                self.segment_table(),
                *old(caret),
                scope,
                forward,
            ),
    {
        let ghost t = self.text();
        let ghost o = self.object_table();
        let ghost s = self.segment_table();
        if scope == Scope::Char {
            return self.step_in_reading_order(caret, scope, forward);
        }
        let from = self.unit_id_at(*caret, scope);
        if !self.step_in_reading_order(caret, scope, forward) {
            self.land_on_object(caret, scope, Landing::Start);
            return false;
        }
        if from.is_some() {
            let ghost start = *caret;
            let mut guard: usize = 0;
            while same_unit(self.unit_id_at(*caret, scope), from)
                invariant_except_break
                    guard <= MAX_ATOMIC_STEPS,
                    t == self.text(),
                    o == self.object_table(),
                    s == self.segment_table(),
                    well_spaced(t),
                    self.paragraphs_fit(),
                    from is Some,
                    unit_step_along(t, o, s, *old(caret), scope, forward) == leave_unit(
                        t,
                        o,
                        s,
                        start,
                        scope,
                        forward,
                        from,
                        0,
                    ),
                    leave_unit(t, o, s, start, scope, forward, from, 0) == leave_unit(
                        t,
                        o,
                        s,
                        *caret,
                        scope,
                        forward,
                        from,
                        guard as nat,
                    ),
                ensures
                    unit_id(o, *caret, scope) != from,
                    leave_unit(t, o, s, start, scope, forward, from, 0) == (
                        true,
                        landed(t, o, *caret, scope, Landing::Start),
                    ),
                decreases MAX_ATOMIC_STEPS - guard,
            {
                guard = guard + 1;
                if guard > MAX_ATOMIC_STEPS {
                    self.land_on_object(caret, scope, Landing::Start);
                    return false;
                }
                if !self.step_in_reading_order(caret, scope, forward) {
                    self.land_on_object(caret, scope, Landing::Start);
                    return false;
                }
            }
        }
        self.land_on_object(caret, scope, Landing::Start);
        true
    }

    /// Where a counted motion (`3j`, `5w`) takes `at`: `count` unit steps of
    /// `scope` along the reading order, one without a count, stopping early
    /// at an edge of the document.
    pub fn repeat_unit_steps(&self, at: Caret, scope: Scope, forward: bool, count: Option<u32>) -> (r:
        Caret)
        requires
            well_spaced(self.text()),
            self.paragraphs_fit(),
        ensures
            r == unit_steps(
                self.text(),
                self.object_table(),
                self.segment_table(),
                at,
                scope,
                forward,
                repetitions(count),
            ),
    {
        let steps: u32 = match count {
            Some(n) => if n >= 1 {
                n
            } else {
                1
            },
            None => 1,
        };
        let mut caret = at;
        let mut done: u32 = 0;
        while done < steps
            invariant
                done <= steps,
                steps as nat == repetitions(count),
                well_spaced(self.text()),
                self.paragraphs_fit(),
                unit_steps(
                    self.text(),
                    self.object_table(),
                    self.segment_table(),
                    at,
                    scope,
                    forward,
                    repetitions(count),
                ) == unit_steps(
                    self.text(),
                    self.object_table(),
                    self.segment_table(),
                    caret,
                    scope,
                    forward,
                    (steps - done) as nat,
                ),
            decreases steps - done,
        {
            if !self.step_unit_in_reading_order(&mut caret, scope, forward) {
                return caret;
            }
            done = done + 1;
        }
        caret
    }
}

} // verus!
