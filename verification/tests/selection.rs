use syodep::caret::{Caret, Mode, Scope, VisualAnchor};
use syodep::caret::PendingHighlight;
use syodep::effects::Effects;
use syodep::selection::{selection_span, swap_ends, SelectionState};

fn at(page: usize, line: usize, cell: usize) -> Caret {
    Caret { page, line, cell }
}

#[test]
fn the_span_runs_from_the_earliest_edge_to_the_latest() {
    let anchor = (at(0, 2, 0), at(0, 2, 9));
    let head = (at(0, 1, 4), at(0, 1, 7));
    assert_eq!(selection_span(anchor, head), (at(0, 1, 4), at(0, 2, 9)));
    assert_eq!(selection_span(head, anchor), (at(0, 1, 4), at(0, 2, 9)));
    let later_page = (at(1, 0, 0), at(1, 0, 3));
    assert_eq!(selection_span(anchor, later_page), (at(0, 2, 0), at(1, 0, 3)));
}

#[test]
fn swapping_exchanges_the_ends_and_their_scopes() {
    let mut focus = at(0, 3, 1);
    let mut scope = Scope::Word;
    let mut anchor = VisualAnchor {
        anchor: at(0, 1, 0),
        anchor_scope: Scope::Line,
        return_mode: Mode::Focus,
    };
    swap_ends(&mut focus, &mut scope, &mut anchor);
    assert_eq!(focus, at(0, 1, 0));
    assert_eq!(scope, Scope::Line);
    assert_eq!(anchor.anchor, at(0, 3, 1));
    assert_eq!(anchor.anchor_scope, Scope::Word);
    assert_eq!(anchor.return_mode, Mode::Focus);
}

fn focused(mode: Mode, visual: Option<VisualAnchor>) -> SelectionState {
    SelectionState {
        mode,
        focus: Some(at(0, 2, 5)),
        focus_scope: Scope::Word,
        visual,
        pending: None,
    }
}

#[test]
fn entering_highlight_from_focus_adds_an_anchor_and_records_the_way_back() {
    let mut s = focused(Mode::Focus, None);
    let e = s.enter_highlight(true, "#ffee00");
    assert!(e.redraw);
    assert_eq!(s.mode, Mode::Highlight);
    assert_eq!(s.focus, Some(at(0, 2, 5)));
    assert_eq!(
        s.visual,
        Some(VisualAnchor { anchor: at(0, 2, 5), anchor_scope: Scope::Word, return_mode: Mode::Focus })
    );
    assert_eq!(
        s.pending,
        Some(PendingHighlight {
            return_mode: Mode::Focus,
            return_focus: at(0, 2, 5),
            return_scope: Scope::Word,
            return_visual: None,
            color: "#ffee00".to_string(),
        })
    );
}

#[test]
fn entering_highlight_from_visual_keeps_the_existing_anchor() {
    let anchor = VisualAnchor { anchor: at(0, 0, 1), anchor_scope: Scope::Line, return_mode: Mode::Normal };
    let mut s = focused(Mode::Visual, Some(anchor));
    let e = s.enter_highlight(true, "#00ff00");
    assert!(e.redraw);
    assert_eq!(s.mode, Mode::Highlight);
    assert_eq!(s.visual, Some(anchor));
    assert_eq!(s.pending.as_ref().map(|p| p.return_visual), Some(Some(anchor)));
}

#[test]
fn entering_highlight_is_refused_without_a_document_or_from_normal_mode() {
    let mut s = focused(Mode::Focus, None);
    let before = s.clone();
    assert_eq!(s.enter_highlight(false, "#ffee00"), Effects::default());
    assert_eq!(s, before);

    let mut n = focused(Mode::Normal, None);
    let before = n.clone();
    assert_eq!(n.enter_highlight(true, "#ffee00"), Effects::default());
    assert_eq!(n, before);

    let mut no_focus = focused(Mode::Focus, None);
    no_focus.focus = None;
    let before = no_focus.clone();
    assert_eq!(no_focus.enter_highlight(true, "#ffee00"), Effects::default());
    assert_eq!(no_focus, before);
}

#[test]
fn discarding_a_highlight_puts_everything_back() {
    let initial = focused(Mode::Focus, None);
    let mut s = initial.clone();
    s.enter_highlight(true, "#ffee00");
    // The caret moved while highlighting; discarding must restore it.
    s.focus = Some(at(0, 4, 0));
    s.focus_scope = Scope::Line;
    let e = s.discard_highlight();
    assert!(e.redraw);
    assert_eq!(s, initial);
}

#[test]
fn discarding_with_nothing_pending_changes_nothing() {
    let mut s = focused(Mode::Visual, None);
    let before = s.clone();
    assert_eq!(s.discard_highlight(), Effects::default());
    assert_eq!(s, before);
}

#[test]
fn v_from_focus_starts_a_selection_at_the_focus_position() {
    let mut s = focused(Mode::Focus, None);
    let (e, kept) = s.enter_visual(true, None, Some(at(9, 9, 9)));
    assert!(e.redraw);
    assert_eq!(kept, None);
    assert_eq!(s.mode, Mode::Visual);
    assert_eq!(s.focus, Some(at(0, 2, 5)));
    assert_eq!(
        s.visual,
        Some(VisualAnchor { anchor: at(0, 2, 5), anchor_scope: Scope::Word, return_mode: Mode::Focus })
    );
    let e = s.exit_visual();
    assert!(e.redraw);
    assert_eq!(s, focused(Mode::Focus, None));
}

#[test]
fn v_from_normal_mode_starts_at_the_entry_line_and_exits_to_normal() {
    let mut s = SelectionState {
        mode: Mode::Normal,
        focus: None,
        focus_scope: Scope::Char,
        visual: None,
        pending: None,
    };
    let (e, _) = s.enter_visual(true, Some(Scope::Line), Some(at(1, 0, 0)));
    assert!(e.redraw);
    assert_eq!(s.mode, Mode::Visual);
    assert_eq!(s.focus, Some(at(1, 0, 0)));
    assert_eq!(s.focus_scope, Scope::Line);
    s.exit_visual();
    assert_eq!(s.mode, Mode::Normal);
    assert_eq!(s.focus_scope, Scope::Char);
    assert_eq!(s.visual, None);
    assert_eq!(s.focus, Some(at(1, 0, 0)));
}

#[test]
fn v_without_a_document_or_a_position_does_nothing() {
    let mut s = focused(Mode::Focus, None);
    let before = s.clone();
    assert_eq!(s.enter_visual(false, None, None), (Effects::default(), None));
    assert_eq!(s, before);
    let mut empty = SelectionState {
        mode: Mode::Normal,
        focus: None,
        focus_scope: Scope::Char,
        visual: None,
        pending: None,
    };
    let before = empty.clone();
    assert_eq!(empty.enter_visual(true, None, None), (Effects::default(), None));
    assert_eq!(empty, before);
}

#[test]
fn v_again_collapses_the_selection_onto_the_moving_end() {
    let anchor = VisualAnchor { anchor: at(0, 0, 1), anchor_scope: Scope::Line, return_mode: Mode::Focus };
    let mut s = focused(Mode::Visual, Some(anchor));
    s.enter_visual(true, Some(Scope::Sentence), None);
    assert_eq!(s.focus_scope, Scope::Sentence);
    assert_eq!(
        s.visual,
        Some(VisualAnchor { anchor: at(0, 2, 5), anchor_scope: Scope::Sentence, return_mode: Mode::Focus })
    );
}

#[test]
fn v_from_highlight_mode_keeps_the_highlight_and_the_selection() {
    let mut s = focused(Mode::Focus, None);
    s.enter_highlight(true, "#ffee00");
    let visual = s.visual;
    let (e, kept) = s.enter_visual(true, Some(Scope::Line), None);
    assert!(e.redraw);
    assert_eq!(kept.map(|p| p.color), Some("#ffee00".to_string()));
    assert_eq!(s.mode, Mode::Visual);
    assert_eq!(s.pending, None);
    assert_eq!(s.visual, visual);
    assert_eq!(s.focus_scope, Scope::Line);
}

#[test]
fn o_swaps_the_ends_and_twice_restores_them() {
    let anchor = VisualAnchor { anchor: at(0, 0, 1), anchor_scope: Scope::Line, return_mode: Mode::Focus };
    let initial = focused(Mode::Visual, Some(anchor));
    let mut s = initial.clone();
    assert!(s.visual_swap_ends().redraw);
    assert_eq!(s.focus, Some(at(0, 0, 1)));
    assert_eq!(s.focus_scope, Scope::Line);
    assert_eq!(s.visual.map(|a| (a.anchor, a.anchor_scope)), Some((at(0, 2, 5), Scope::Word)));
    s.visual_swap_ends();
    assert_eq!(s, initial);

    let mut none = focused(Mode::Focus, None);
    assert_eq!(none.visual_swap_ends(), Effects::default());
    assert_eq!(none, focused(Mode::Focus, None));
}

#[test]
fn ow_swaps_then_sets_the_new_moving_ends_scope() {
    let anchor = VisualAnchor { anchor: at(0, 0, 1), anchor_scope: Scope::Line, return_mode: Mode::Focus };
    let mut s = focused(Mode::Visual, Some(anchor));
    assert!(s.set_head_scope(Scope::Word, true).redraw);
    assert_eq!(s.focus, Some(at(0, 0, 1)));
    assert_eq!(s.focus_scope, Scope::Word);
    assert_eq!(s.visual.map(|a| a.anchor_scope), Some(Scope::Word));
    let mut vw = focused(Mode::Visual, Some(anchor));
    vw.set_head_scope(Scope::Paragraph, false);
    assert_eq!(vw.focus, Some(at(0, 2, 5)));
    assert_eq!(vw.focus_scope, Scope::Paragraph);
    let mut none = focused(Mode::Focus, None);
    assert_eq!(none.set_head_scope(Scope::Line, true), Effects::default());
    assert_eq!(none.focus_scope, Scope::Word);
}

#[test]
fn leaving_normal_mode_resets_the_scope_but_keeps_the_position() {
    let mut s = focused(Mode::Focus, None);
    s.enter_normal_mode();
    assert_eq!(s.mode, Mode::Normal);
    assert_eq!(s.focus_scope, Scope::Char);
    assert_eq!(s.focus, Some(at(0, 2, 5)));
}
