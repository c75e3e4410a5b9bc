//! The two ends of a visual selection and the span they cover.
//!
//! The moving end of a selection is the focus position, with the focus
//! scope; the other end is the stored [`VisualAnchor`]. Each end is expanded
//! by its own scope, and the selection runs from the outer edge of the
//! earlier end to the outer edge of the later one. So the ends crossing needs
//! no special case, and `o`, which exchanges the ends, never changes what is
//! drawn.

use vstd::prelude::*;

use crate::caret::{Caret, Cell, ContentObject, Mode, PendingHighlight, Scope, VisualAnchor};
use crate::scopes::{repetitions, snapped, unit_steps};
use crate::words::{well_spaced, DocumentText};
use crate::effects::{no_effects, Effects};
use crate::text::owned;
use crate::words::precedes;

verus! {

/// The earlier of two positions in document order.
pub open spec fn earlier(a: Caret, b: Caret) -> Caret {
    if precedes(b, a) {
        b
    } else {
        a
    }
}

/// The later of two positions in document order.
pub open spec fn later(a: Caret, b: Caret) -> Caret {
    if precedes(a, b) {
        b
    } else {
        a
    }
}

/// The span a selection covers, given the spans its two ends expand to:
/// from the earliest edge to the latest.
pub open spec fn covered(anchor_span: (Caret, Caret), head_span: (Caret, Caret)) -> (Caret, Caret) {
    (earlier(anchor_span.0, head_span.0), later(anchor_span.1, head_span.1))
}

/// Whether `a` comes before `b` in document order.
fn before(a: Caret, b: Caret) -> (r: bool)
    ensures
        r == precedes(a, b),
{
    a.page < b.page || (a.page == b.page && a.line < b.line) || (a.page == b.page && a.line
        == b.line && a.cell < b.cell)
}

/// The span a selection covers, given the spans its two ends expand to: from
/// the earliest edge to the latest, whichever end is which.
pub fn selection_span(anchor_span: (Caret, Caret), head_span: (Caret, Caret)) -> (r: (
    Caret,
    Caret,
))
    ensures
        r == covered(anchor_span, head_span),
{
    let start = if before(head_span.0, anchor_span.0) {
        head_span.0
    } else {
        anchor_span.0
    };
    let end = if before(anchor_span.1, head_span.1) {
        head_span.1
    } else {
        anchor_span.1
    };
    (start, end)
}

/// Exchange the anchored end with the moving one, scopes included, keeping
/// the rule that the focus position is whichever end moves.
pub fn swap_ends(focus: &mut Caret, focus_scope: &mut Scope, anchor: &mut VisualAnchor)
    ensures
        *final(focus) == old(anchor).anchor,
        *final(focus_scope) == old(anchor).anchor_scope,
        final(anchor).anchor == *old(focus),
        final(anchor).anchor_scope == *old(focus_scope),
        final(anchor).return_mode == old(anchor).return_mode,
{
    let head = *focus;
    let head_scope = *focus_scope;
    *focus = anchor.anchor;
    *focus_scope = anchor.anchor_scope;
    anchor.anchor = head;
    anchor.anchor_scope = head_scope;
}

/// `o` never changes what is drawn: whatever each end expands to at its
/// scope, exchanging the ends leaves the covered span as it was.
pub proof fn lemma_swap_keeps_span(
    focus: Caret,
    focus_scope: Scope,
    anchor: VisualAnchor,
    expand: spec_fn(Caret, Scope) -> (Caret, Caret),
)
    ensures
        covered(expand(anchor.anchor, anchor.anchor_scope), expand(focus, focus_scope)) == covered(
            expand(focus, focus_scope),
            expand(anchor.anchor, anchor.anchor_scope),
        ),
{
}

/// The covered span runs from an edge of one end to an edge of the other,
/// and holds both ends' spans when each is in document order.
pub proof fn lemma_span_covers_both_ends(anchor_span: (Caret, Caret), head_span: (Caret, Caret))
    requires
        !precedes(anchor_span.1, anchor_span.0),
        !precedes(head_span.1, head_span.0),
    ensures
        !precedes(anchor_span.0, covered(anchor_span, head_span).0),
        !precedes(head_span.0, covered(anchor_span, head_span).0),
        !precedes(covered(anchor_span, head_span).1, anchor_span.1),
        !precedes(covered(anchor_span, head_span).1, head_span.1),
{
}

/// Where the reader is and what is selected: the mode, the focus position
/// and its scope, the anchored end of a selection, and the highlight being
/// placed.
#[derive(Debug, Clone, PartialEq)]
pub struct SelectionState {
    pub mode: Mode,
    pub focus: Option<Caret>,
    pub focus_scope: Scope,
    pub visual: Option<VisualAnchor>,
    pub pending: Option<PendingHighlight>,
}

/// Whether `a` and `b` agree on the mode, the position, its scope and the
/// selection.
pub open spec fn same_place(a: SelectionState, b: SelectionState) -> bool {
    a.mode == b.mode && a.focus == b.focus && a.focus_scope == b.focus_scope && a.visual == b.visual
}

/// Whether highlight mode can be entered from `s`: a document is open, the
/// mode is focus or visual, and there is a focus position.
pub open spec fn can_highlight(s: SelectionState, has_document: bool) -> bool {
    has_document && (s.mode == Mode::Focus || s.mode == Mode::Visual) && s.focus is Some
}

/// `after` is `before` with highlight mode entered in `color`: the position
/// and its scope unchanged, an anchor on the focus position added when there
/// was none, and the way back recorded.
pub open spec fn enters_highlight(before: SelectionState, after: SelectionState, color: Seq<char>) -> bool {
    &&& after.mode == Mode::Highlight
    &&& after.focus == before.focus
    &&& after.focus_scope == before.focus_scope
    &&& after.visual == (match before.visual {
        Some(a) => Some(a),
        None => Some(
            VisualAnchor {
                anchor: before.focus.unwrap(),
                anchor_scope: before.focus_scope,
                return_mode: before.mode,
            },
        ),
    })
    &&& after.pending is Some
    &&& after.pending.unwrap().return_mode == before.mode
    &&& after.pending.unwrap().return_focus == before.focus.unwrap()
    &&& after.pending.unwrap().return_scope == before.focus_scope
    &&& after.pending.unwrap().return_visual == before.visual
    &&& after.pending.unwrap().color@ == color
}

/// `after` is `before` with its pending highlight thrown away: the recorded
/// mode, position, scope and selection put back, and nothing pending.
pub open spec fn discards_highlight(before: SelectionState, after: SelectionState) -> bool {
    match before.pending {
        None => after == before,
        Some(p) => after.mode == p.return_mode && after.focus == Some(p.return_focus)
            && after.focus_scope == p.return_scope && after.visual == p.return_visual
            && after.pending is None,
    }
}

impl SelectionState {
    /// `a`: start turning the focused unit or the selection into a highlight
    /// in `color`. Only from focus or visual mode, with a document open and a
    /// focus position; otherwise nothing happens.
    ///
    /// Entering never moves the position: it records how to undo itself and,
    /// coming from focus mode, adds an anchor on the focus position.
    pub fn enter_highlight(&mut self, has_document: bool, color: &str) -> (e: Effects)
        ensures
            !can_highlight(*old(self), has_document) ==> *final(self) == *old(self) && e
                == no_effects(),
            can_highlight(*old(self), has_document) ==> enters_highlight(
                *old(self),
                *final(self),
                color@,
            ) && e == (Effects { redraw: true, ..no_effects() }),
    {
        if !has_document || self.mode == Mode::Highlight {
            return Effects::default();
        }
        if !(self.mode == Mode::Focus || self.mode == Mode::Visual) {
            return Effects::default();
        }
        let focus = match self.focus {
            Some(focus) => focus,
            None => return Effects::default(),
        };
        self.pending = Some(
            PendingHighlight {
                return_mode: self.mode,
                return_focus: focus,
                return_scope: self.focus_scope,
                return_visual: self.visual,
                color: owned(color),
            },
        );
        if self.visual.is_none() {
            self.visual = Some(
                VisualAnchor { anchor: focus, anchor_scope: self.focus_scope, return_mode: self.mode },
            );
        }
        self.mode = Mode::Highlight;
        Effects::redraw()
    }

    /// `<Esc>` / `<BS>` in highlight mode: throw the highlight away and put
    /// back the mode and selection that were in effect when `a` was pressed.
    pub fn discard_highlight(&mut self) -> (e: Effects)
        ensures
            discards_highlight(*old(self), *final(self)),
            e == if old(self).pending is Some {
                Effects { redraw: true, ..no_effects() }
            } else {
                no_effects()
            },
    {
        let pending = match self.pending.take() {
            Some(pending) => pending,
            None => return Effects::default(),
        };
        self.mode = pending.return_mode;
        self.focus = Some(pending.return_focus);
        self.focus_scope = pending.return_scope;
        self.visual = pending.return_visual;
        Effects::redraw()
    }
}

/// The effects of a change the screen must show.
pub open spec fn redrawn() -> Effects {
    Effects { redraw: true, ..no_effects() }
}

/// `s` with the anchored end and the moving one exchanged, scopes included;
/// unchanged unless there is both a selection and a focus position.
pub open spec fn swapped(s: SelectionState) -> SelectionState {
    match (s.visual, s.focus) {
        (Some(a), Some(head)) => SelectionState {
            focus: Some(a.anchor),
            focus_scope: a.anchor_scope,
            visual: Some(
                VisualAnchor { anchor: head, anchor_scope: s.focus_scope, return_mode: a.return_mode },
            ),
            ..s
        },
        _ => s,
    }
}

/// `s` in normal mode: the position kept, the scope back to char.
pub open spec fn normal(s: SelectionState) -> SelectionState {
    SelectionState { mode: Mode::Normal, focus_scope: Scope::Char, ..s }
}

/// `s` after leaving visual mode: back in the mode the selection was
/// entered from (normal mode resets the scope), the selection dropped.
pub open spec fn visual_exited(s: SelectionState) -> SelectionState {
    match s.visual {
        None => normal(s),
        Some(a) => if a.return_mode == Mode::Normal {
            SelectionState { visual: None, ..normal(s) }
        } else {
            SelectionState { mode: a.return_mode, visual: None, ..s }
        },
    }
}

/// `s` after setting the moving end's scope to `scope`, switching ends first
/// when `swap_first`; unchanged without a selection.
pub open spec fn head_scope_set(s: SelectionState, scope: Scope, swap_first: bool) -> SelectionState {
    if s.visual is None {
        s
    } else {
        SelectionState {
            focus_scope: scope,
            ..if swap_first {
                swapped(s)
            } else {
                s
            }
        }
    }
}

/// What entering visual mode does to `s`: the new state, the effects, and
/// the highlight to keep when it leaves highlight mode.
///
/// From highlight mode the selection is kept as it is (a scope still applies
/// to the moving end). Pressed again in visual mode, the selection collapses
/// onto the moving end. Otherwise a fresh selection starts at the focus
/// position, or at `entry` where there is none, at `scope` or else the
/// current scope, and records the mode to return to.
pub open spec fn visual_entered(
    s: SelectionState,
    has_document: bool,
    scope: Option<Scope>,
    entry: Option<Caret>,
) -> (SelectionState, Effects, Option<PendingHighlight>) {
    if !has_document {
        (s, no_effects(), None)
    } else if s.mode == Mode::Highlight {
        let kept = SelectionState { mode: Mode::Visual, pending: None, ..s };
        match scope {
            Some(sc) => (
                head_scope_set(kept, sc, false),
                if kept.visual is Some {
                    redrawn()
                } else {
                    no_effects()
                },
                s.pending,
            ),
            None => (kept, redrawn(), s.pending),
        }
    } else if s.mode == Mode::Visual && s.visual is Some && s.focus is Some {
        let sc = match scope {
            Some(sc) => sc,
            None => s.focus_scope,
        };
        (
            SelectionState {
                focus_scope: sc,
                visual: Some(
                    VisualAnchor {
                        anchor: s.focus.unwrap(),
                        anchor_scope: sc,
                        return_mode: s.visual.unwrap().return_mode,
                    },
                ),
                ..s
            },
            redrawn(),
            None,
        )
    } else {
        let sc = match scope {
            Some(sc) => sc,
            None => s.focus_scope,
        };
        let start = match s.focus {
            Some(at) => Some(at),
            None => entry,
        };
        match start {
            None => (s, no_effects(), None),
            Some(at) => (
                SelectionState {
                    mode: Mode::Visual,
                    focus: Some(at),
                    focus_scope: sc,
                    visual: Some(VisualAnchor { anchor: at, anchor_scope: sc, return_mode: s.mode }),
                    ..s
                },
                redrawn(),
                None,
            ),
        }
    }
}

/// What entering focus mode at `scope` does to `s`: the new state, the
/// effects, and the highlight to keep when one was being placed.
///
/// The position is kept (or starts at `entry` when there is none) and
/// reinterpreted at the new scope: it lands on the start of its unit. A
/// selection and a focus highlight are exclusive, so the selection goes.
pub open spec fn focus_entered(
    s: SelectionState,
    t: Seq<Seq<Seq<Cell>>>,
    o: Seq<Seq<ContentObject>>,
    g: Seq<Seq<(usize, usize)>>,
    has_document: bool,
    scope: Scope,
    entry: Option<Caret>,
) -> (SelectionState, Effects, Option<PendingHighlight>) {
    if !has_document {
        (s, no_effects(), None)
    } else {
        let start = match s.focus {
            Some(at) => Some(at),
            None => entry,
        };
        (
            SelectionState {
                mode: Mode::Focus,
                focus: match start {
                    Some(at) => Some(snapped(t, o, g, at, scope)),
                    None => None,
                },
                focus_scope: scope,
                visual: None,
                pending: None,
            },
            redrawn(),
            s.pending,
        )
    }
}

/// What moving the focus `count` units of `scope` along the reading order
/// does to `s`. With nothing focused yet it enters focus mode instead.
pub open spec fn focus_moved(
    s: SelectionState,
    t: Seq<Seq<Seq<Cell>>>,
    o: Seq<Seq<ContentObject>>,
    g: Seq<Seq<(usize, usize)>>,
    has_document: bool,
    scope: Scope,
    forward: bool,
    count: Option<u32>,
    entry: Option<Caret>,
) -> (SelectionState, Effects, Option<PendingHighlight>) {
    if !has_document {
        (s, no_effects(), None)
    } else {
        match s.focus {
            None => focus_entered(s, t, o, g, has_document, s.focus_scope, entry),
            Some(at) => (
                SelectionState {
                    focus: Some(unit_steps(t, o, g, at, scope, forward, repetitions(count))),
                    ..s
                },
                redrawn(),
                None,
            ),
        }
    }
}

/// What moving a selection's moving end `count` units of `scope` along the
/// reading order does to `s`; nothing without a selection.
pub open spec fn head_moved(
    s: SelectionState,
    t: Seq<Seq<Seq<Cell>>>,
    o: Seq<Seq<ContentObject>>,
    g: Seq<Seq<(usize, usize)>>,
    scope: Scope,
    forward: bool,
    count: Option<u32>,
) -> (SelectionState, Effects) {
    match (s.visual, s.focus) {
        (Some(_), Some(head)) => (
            SelectionState {
                focus: Some(unit_steps(t, o, g, head, scope, forward, repetitions(count))),
                ..s
            },
            redrawn(),
        ),
        _ => (s, no_effects()),
    }
}

impl SelectionState {
    /// Enter focus mode at `scope`, or, already focused, reinterpret the
    /// position at the new scope without moving it off its unit: `cw` then
    /// `ce` keeps the reader where they are. `entry` is where focus starts
    /// when there is no position yet: the topmost visible line.
    ///
    /// A highlight being placed is kept and handed back to be stored.
    pub fn enter_focus(
        &mut self,
        text: &DocumentText,
        has_document: bool,
        scope: Scope,
        entry: Option<Caret>,
    ) -> (r: (Effects, Option<PendingHighlight>))
        requires
            well_spaced(text.text()),
            text.paragraphs_fit(),
        ensures
            (*final(self), r.0, r.1) == focus_entered(
                *old(self),
                text.text(),
                text.object_table(),
                text.segment_table(),
                has_document,
                scope,
                entry,
            ),
    {
        if !has_document {
            return (Effects::default(), None);
        }
        let kept = self.pending.take();
        self.mode = Mode::Focus;
        self.focus_scope = scope;
        self.visual = None;
        let start = match self.focus {
            Some(at) => Some(at),
            None => entry,
        };
        if let Some(at) = start {
            self.focus = Some(text.snap_to_scope(at, scope));
        }
        (Effects::redraw(), kept)
    }

    /// `a` again: keep the highlight and return to focus on the moving end.
    /// Nothing happens when no highlight is being placed.
    pub fn commit_highlight(&mut self, text: &DocumentText, has_document: bool) -> (r: (
        Effects,
        Option<PendingHighlight>,
    ))
        requires
            well_spaced(text.text()),
            text.paragraphs_fit(),
        ensures
            old(self).pending is None ==> *final(self) == *old(self) && r == (no_effects(), None::<
                PendingHighlight,
            >),
            old(self).pending is Some ==> (*final(self), r.0, r.1) == focus_entered(
                *old(self),
                text.text(),
                text.object_table(),
                text.segment_table(),
                has_document,
                old(self).focus_scope,
                None,
            ),
    {
        if self.pending.is_none() {
            return (Effects::default(), None);
        }
        let scope = self.focus_scope;
        self.enter_focus(text, has_document, scope, None)
    }

    /// Move the focus `count` units of `scope` along the reading order,
    /// stopping at an edge of the document; `hjkl` pass the focus scope,
    /// `w`/`b`/`e`/`s`/`p` their own. With nothing focused yet, enter focus
    /// mode at `entry` instead.
    pub fn move_focus(
        &mut self,
        text: &DocumentText,
        has_document: bool,
        scope: Scope,
        forward: bool,
        count: Option<u32>,
        entry: Option<Caret>,
    ) -> (r: (Effects, Option<PendingHighlight>))
        requires
            well_spaced(text.text()),
            text.paragraphs_fit(),
        ensures
            (*final(self), r.0, r.1) == focus_moved(
                *old(self),
                text.text(),
                text.object_table(),
                text.segment_table(),
                has_document,
                scope,
                forward,
                count,
                entry,
            ),
    {
        if !has_document {
            return (Effects::default(), None);
        }
        match self.focus {
            None => {
                let scope = self.focus_scope;
                self.enter_focus(text, has_document, scope, entry)
            },
            Some(at) => {
                self.focus = Some(text.repeat_unit_steps(at, scope, forward, count));
                (Effects::redraw(), None)
            },
        }
    }

    /// Move a selection's moving end `count` units of `scope` along the
    /// reading order; the anchored end stays. Nothing happens without a
    /// selection.
    pub fn move_head(
        &mut self,
        text: &DocumentText,
        scope: Scope,
        forward: bool,
        count: Option<u32>,
    ) -> (e: Effects)
        requires
            well_spaced(text.text()),
            text.paragraphs_fit(),
        ensures
            (*final(self), e) == head_moved(
                *old(self),
                text.text(),
                text.object_table(),
                text.segment_table(),
                scope,
                forward,
                count,
            ),
    {
        if self.visual.is_none() {
            return Effects::default();
        }
        match self.focus {
            None => Effects::default(),
            Some(head) => {
                self.focus = Some(text.repeat_unit_steps(head, scope, forward, count));
                Effects::redraw()
            },
        }
    }

    /// Return to normal mode. Normal mode has no granularity of its own, so
    /// the scope resets to char; the position is kept.
    pub fn enter_normal_mode(&mut self)
        ensures
            *final(self) == normal(*old(self)),
    {
        self.mode = Mode::Normal;
        self.focus_scope = Scope::Char;
    }

    /// Exchange the anchored end with the moving one, scopes included, so
    /// the focus position is always the end that moves.
    pub fn swap_visual_ends(&mut self)
        ensures
            *final(self) == swapped(*old(self)),
    {
        if let (Some(mut a), Some(head)) = (self.visual, self.focus) {
            self.focus = Some(a.anchor);
            a.anchor = head;
            let scope = self.focus_scope;
            self.focus_scope = a.anchor_scope;
            a.anchor_scope = scope;
            self.visual = Some(a);
        }
    }

    /// `o`: make the other end the one motions move. What is drawn stays
    /// the same.
    pub fn visual_swap_ends(&mut self) -> (e: Effects)
        ensures
            old(self).visual is None ==> *final(self) == *old(self) && e == no_effects(),
            old(self).visual is Some ==> *final(self) == swapped(*old(self)) && e == redrawn(),
    {
        if self.visual.is_none() {
            return Effects::default();
        }
        self.swap_visual_ends();
        Effects::redraw()
    }

    /// Set the moving end's scope, switching ends first for `ow` (as against
    /// `vw`). Nothing happens without a selection.
    pub fn set_head_scope(&mut self, scope: Scope, swap_first: bool) -> (e: Effects)
        ensures
            *final(self) == head_scope_set(*old(self), scope, swap_first),
            e == if old(self).visual is None {
                no_effects()
            } else {
                redrawn()
            },
    {
        if self.visual.is_none() {
            return Effects::default();
        }
        if swap_first {
            self.swap_visual_ends();
        }
        self.focus_scope = scope;
        Effects::redraw()
    }

    /// Leave visual mode for the mode it was entered from, dropping the
    /// anchor: the moving end already is the live position.
    pub fn exit_visual(&mut self) -> (e: Effects)
        ensures
            *final(self) == visual_exited(*old(self)),
            e == redrawn(),
    {
        let a = match self.visual {
            Some(a) => a,
            None => {
                self.enter_normal_mode();
                return Effects::redraw();
            },
        };
        if a.return_mode == Mode::Normal {
            self.enter_normal_mode();
        } else {
            self.mode = a.return_mode;
        }
        self.visual = None;
        Effects::redraw()
    }

    /// `v`: enter visual mode at `scope`, or at the current scope when
    /// `scope` is `None` (`v` from word focus selects word-wise).
    ///
    /// `entry` is where a selection starts when there is no focus position
    /// yet: the topmost visible line. From highlight mode the highlight is
    /// kept and handed back to be stored, and the selection stays as it was.
    pub fn enter_visual(&mut self, has_document: bool, scope: Option<Scope>, entry: Option<Caret>) -> (r: (
        Effects,
        Option<PendingHighlight>,
    ))
        ensures
            (*final(self), r.0, r.1) == visual_entered(*old(self), has_document, scope, entry),
    {
        if !has_document {
            return (Effects::default(), None);
        }
        if self.mode == Mode::Highlight {
            let kept = self.pending.take();
            self.mode = Mode::Visual;
            let e = match scope {
                Some(scope) => self.set_head_scope(scope, false),
                None => Effects::redraw(),
            };
            return (e, kept);
        }
        if self.mode == Mode::Visual {
            if let (Some(mut a), Some(head)) = (self.visual, self.focus) {
                a.anchor = head;
                if let Some(scope) = scope {
                    self.focus_scope = scope;
                }
                a.anchor_scope = self.focus_scope;
                self.visual = Some(a);
                return (Effects::redraw(), None);
            }
        }
        let scope = match scope {
            Some(scope) => scope,
            None => self.focus_scope,
        };
        let at = match self.focus {
            Some(at) => at,
            None => match entry {
                Some(at) => at,
                None => return (Effects::default(), None),
            },
        };
        self.visual = Some(VisualAnchor { anchor: at, anchor_scope: scope, return_mode: self.mode });
        self.focus = Some(at);
        self.focus_scope = scope;
        self.mode = Mode::Visual;
        (Effects::redraw(), None)
    }
}

/// `o` twice leaves the selection exactly as it was.
pub proof fn lemma_swapping_twice_changes_nothing(s: SelectionState)
    ensures
        swapped(swapped(s)) == s,
{
}

/// Leaving visual mode returns to the mode it was entered from: a selection
/// started from focus mode goes back to focus, one started from normal mode
/// goes back to normal mode, and a focus position held before entering is
/// held again.
pub proof fn lemma_exit_returns_to_the_entry_mode(
    s: SelectionState,
    scope: Option<Scope>,
    entry: Option<Caret>,
)
    requires
        s.mode == Mode::Normal || s.mode == Mode::Focus,
        s.focus is Some || entry is Some,
    ensures
        visual_exited(visual_entered(s, true, scope, entry).0).mode == s.mode,
        visual_exited(visual_entered(s, true, scope, entry).0).visual is None,
        visual_exited(visual_entered(s, true, scope, entry).0).pending == s.pending,
        s.focus is Some ==> visual_exited(visual_entered(s, true, scope, entry).0).focus == s.focus,
{
}

/// Discarding a highlight undoes entering it: the mode, the position, its
/// scope and the selection are all as they were before `a` was pressed.
pub proof fn lemma_discard_undoes_enter(
    before: SelectionState,
    entered: SelectionState,
    after: SelectionState,
    color: Seq<char>,
)
    requires
        enters_highlight(before, entered, color),
        discards_highlight(entered, after),
        before.focus is Some,
    ensures
        same_place(after, before),
        after.pending is None,
{
}

} // verus!
