use syodep::caret::{
    Caret, Cell, CellKind, ContentObject, Landing, Mode, ParagraphMark, Scope, VisualAnchor,
};
use syodep::selection::SelectionState;
use syodep::object_policy::ObjectTraits;
use syodep::words::DocumentText;

const PLAIN: ObjectTraits = ObjectTraits {
    atomic: false,
    block: false,
    splits_paragraphs: false,
    one_sentence: false,
    list_item: false,
    footnote: false,
    caption: false,
};
const TABLE: ObjectTraits = ObjectTraits { block: true, splits_paragraphs: true, ..PLAIN };
const IMAGE: ObjectTraits = ObjectTraits { atomic: true, block: true, splits_paragraphs: true, ..PLAIN };
const FOOTNOTE: ObjectTraits =
    ObjectTraits { block: true, splits_paragraphs: true, footnote: true, ..PLAIN };
const LIST_ITEM: ObjectTraits = ObjectTraits { block: true, list_item: true, ..PLAIN };

fn line(text: &str) -> Vec<Cell> {
    text.chars()
        .map(|ch| Cell {
            kind: CellKind::Char(ch),
            synthetic: false,
        })
        .collect()
}

fn at(page: usize, line: usize, cell: usize) -> Caret {
    Caret { page, line, cell }
}

fn object(start_line: usize, end_line: usize, kind: ObjectTraits) -> ContentObject {
    ContentObject { start_line, end_line, kind }
}

/// Prose, then a four-line table on lines 2..=5, then more prose; the layout
/// grouped the whole page as one paragraph.
fn table_page() -> DocumentText {
    let texts = [
        "Alpha beta.",
        "Gamma delta.",
        "R1C1 R1C2",
        "R2C1 R2C2",
        "R3C1 R3C2",
        "R4C1 R4C2",
        "Omega final.",
        "Last one here.",
    ];
    DocumentText {
        pages: vec![texts.iter().map(|t| line(t)).collect()],
        objects: vec![vec![object(2, 5, TABLE)]],
        paragraphs: vec![vec![(0, 7)]],
    }
}

/// Prose, a one-line footnote on line 2, then more prose.
fn footnote_page() -> DocumentText {
    let texts = [
        "Alpha beta gamma.",
        "Delta epsilon zeta.",
        "1 A footnote sentence here.",
        "Eta theta iota.",
    ];
    DocumentText {
        pages: vec![texts.iter().map(|t| line(t)).collect()],
        objects: vec![vec![object(2, 2, FOOTNOTE)]],
        paragraphs: vec![vec![(0, 1), (2, 3)]],
    }
}

fn unit_steps(text: &DocumentText, from: Caret, scope: Scope, forward: bool, n: usize) -> Caret {
    let mut caret = from;
    for _ in 0..n {
        text.step_unit_in_reading_order(&mut caret, scope, forward);
    }
    caret
}

#[test]
fn a_page_is_cut_into_paragraphs_at_objects_that_stand_alone() {
    assert_eq!(table_page().page_paragraphs(0), vec![(0, 1), (2, 5), (6, 7)]);
    assert_eq!(footnote_page().page_paragraphs(0), vec![(0, 1), (2, 2), (3, 3)]);
    assert_eq!(table_page().page_paragraphs(4), Vec::<(usize, usize)>::new());
}

#[test]
fn list_items_do_not_cut_a_paragraph() {
    let mut text = table_page();
    text.objects = vec![vec![object(2, 2, LIST_ITEM), object(3, 3, LIST_ITEM)]];
    assert_eq!(text.page_paragraphs(0), vec![(0, 7)]);
}

#[test]
fn the_paragraph_holding_a_line_or_else_the_last_one() {
    let text = table_page();
    assert_eq!(
        text.paragraph_mark_containing(0, 3),
        Some(ParagraphMark { page: 0, start_line: 2, end_line: 5 })
    );
    assert_eq!(
        text.paragraph_mark_containing(0, 40),
        Some(ParagraphMark { page: 0, start_line: 6, end_line: 7 })
    );
    assert_eq!(text.paragraph_mark_containing(3, 0), None);
}

#[test]
fn paragraph_steps_cross_pages_and_stop_at_the_ends() {
    let mut text = table_page();
    text.pages.push(Vec::new());
    text.pages.push(vec![line("Next page.")]);
    text.paragraphs.push(Vec::new());
    text.paragraphs.push(vec![(0, 0)]);
    let mut mark = ParagraphMark { page: 0, start_line: 6, end_line: 7 };
    assert!(text.paragraph_step_next(&mut mark));
    assert_eq!(mark, ParagraphMark { page: 2, start_line: 0, end_line: 0 });
    assert!(!text.paragraph_step_next(&mut mark));
    assert_eq!(mark, ParagraphMark { page: 2, start_line: 0, end_line: 0 });
    assert!(text.paragraph_step_prev(&mut mark));
    assert_eq!(mark, ParagraphMark { page: 0, start_line: 6, end_line: 7 });
    assert!(text.paragraph_step_prev(&mut mark));
    assert!(text.paragraph_step_prev(&mut mark));
    assert_eq!(mark, ParagraphMark { page: 0, start_line: 0, end_line: 1 });
    assert!(!text.paragraph_step_prev(&mut mark));
}

#[test]
fn paragraph_next_skips_a_footnote_block_entirely() {
    let text = footnote_page();
    assert_eq!(text.scope_span(at(0, 0, 0), Scope::Paragraph), (at(0, 0, 0), at(0, 1, 18)));
    let mut caret = at(0, 0, 0);
    assert!(text.step_unit_in_reading_order(&mut caret, Scope::Paragraph, true));
    assert_eq!(caret, at(0, 3, 0));
    let (start, end) = text.scope_span(caret, Scope::Paragraph);
    assert_eq!((start.line, end.line), (3, 3));
    assert!(text.step_unit_in_reading_order(&mut caret, Scope::Paragraph, false));
    assert_eq!(caret, at(0, 0, 0));
}

#[test]
fn line_motion_steps_over_a_whole_table_with_one_press() {
    let text = table_page();
    let caret = unit_steps(&text, at(0, 0, 0), Scope::Line, true, 2);
    assert_eq!(caret, at(0, 2, 0));
    let caret = unit_steps(&text, caret, Scope::Line, true, 1);
    assert_eq!(caret, at(0, 6, 0));
    let caret = unit_steps(&text, caret, Scope::Line, false, 1);
    assert_eq!(caret, at(0, 2, 0));
}

#[test]
fn a_count_treats_a_table_as_a_single_unit_at_line_scope() {
    assert_eq!(unit_steps(&table_page(), at(0, 0, 0), Scope::Line, true, 3), at(0, 6, 0));
}

#[test]
fn motion_never_rests_part_way_through_a_table() {
    let text = table_page();
    let mut caret = at(0, 0, 0);
    for _ in 0..12 {
        text.step_unit_in_reading_order(&mut caret, Scope::Line, true);
        assert!(!(3..=5).contains(&caret.line), "stranded inside the table at {caret:?}");
    }
    assert_eq!(caret, at(0, 7, 0));
    assert!(!text.step_unit_in_reading_order(&mut caret, Scope::Line, true));
}

#[test]
fn paragraph_motion_treats_a_table_as_one_paragraph() {
    let text = table_page();
    let caret = unit_steps(&text, at(0, 0, 0), Scope::Paragraph, true, 1);
    assert_eq!(caret, at(0, 2, 0));
    let caret = unit_steps(&text, caret, Scope::Paragraph, true, 1);
    assert_eq!(caret, at(0, 6, 0));
}

#[test]
fn paragraph_span_stops_at_the_table_edge() {
    let (start, end) = table_page().scope_span(at(0, 0, 0), Scope::Paragraph);
    assert_eq!((start.line, end.line), (0, 1));
}

#[test]
fn sentence_span_does_not_run_into_a_table() {
    let text = table_page();
    let mut caret = at(0, 0, 0);
    assert!(text.step_unit_in_reading_order(&mut caret, Scope::Sentence, true));
    assert_eq!(caret, at(0, 1, 0));
    let (_, end) = text.scope_span(caret, Scope::Sentence);
    assert_eq!(end.line, 1, "sentence leaked into the table");
    assert!(text.step_unit_in_reading_order(&mut caret, Scope::Sentence, true));
    assert_eq!(caret, at(0, 2, 0));
}

#[test]
fn every_block_scope_spans_the_whole_table() {
    let text = table_page();
    for scope in [Scope::Line, Scope::Sentence, Scope::Paragraph] {
        assert_eq!(text.scope_span(at(0, 3, 4), scope), (at(0, 2, 0), at(0, 5, 8)), "{scope:?}");
        assert_eq!(text.snap_to_scope(at(0, 4, 2), scope), at(0, 2, 0), "{scope:?}");
    }
}

#[test]
fn word_motion_walks_into_a_table() {
    let text = table_page();
    assert_eq!(text.scope_span(at(0, 3, 6), Scope::Word), (at(0, 3, 5), at(0, 3, 8)));
    let mut caret = at(0, 2, 0);
    assert!(text.step_unit_in_reading_order(&mut caret, Scope::Word, true));
    assert_eq!(caret, at(0, 2, 5));
    assert!(text.step_unit_in_reading_order(&mut caret, Scope::Word, false));
    assert_eq!(caret, at(0, 2, 0));
}

#[test]
fn char_scope_still_walks_into_table_characters() {
    let text = table_page();
    let mut caret = at(0, 2, 0);
    assert!(text.step_unit_in_reading_order(&mut caret, Scope::Char, true));
    assert_eq!(caret, at(0, 2, 1));
    assert_eq!(text.scope_span(caret, Scope::Char), (at(0, 2, 1), at(0, 2, 1)));
    assert_eq!(text.snap_to_scope(caret, Scope::Char), caret);
}

#[test]
fn an_image_is_one_word_stop_landed_on_at_its_start() {
    let mut text = table_page();
    text.objects = vec![vec![object(2, 3, IMAGE)]];
    assert_eq!(text.unit_object_at(0, 3, Scope::Word), Some(object(2, 3, IMAGE)));
    assert_eq!(text.unit_object_at(0, 3, Scope::Char), None);
    assert_eq!(text.scope_span(at(0, 3, 2), Scope::Word), (at(0, 2, 0), at(0, 3, 8)));
    assert_eq!(text.object_landing(0, object(2, 3, IMAGE), Landing::End), at(0, 3, 8));
    let mut caret = at(0, 3, 7);
    text.land_on_object(&mut caret, Scope::Word, Landing::Start);
    assert_eq!(caret, at(0, 2, 0));
    let mut caret = at(0, 1, 11);
    assert!(text.step_unit_in_reading_order(&mut caret, Scope::Word, true));
    assert_eq!(caret, at(0, 2, 0));
    assert!(text.step_unit_in_reading_order(&mut caret, Scope::Word, true));
    assert_eq!(caret, at(0, 4, 0));
}

#[test]
fn snapping_lands_on_the_start_of_the_unit() {
    let text = table_page();
    assert_eq!(text.snap_to_scope(at(0, 0, 7), Scope::Word), at(0, 0, 6));
    assert_eq!(text.snap_to_scope(at(0, 0, 5), Scope::Word), at(0, 0, 6));
    assert_eq!(text.snap_to_scope(at(0, 1, 7), Scope::Line), at(0, 1, 0));
    assert_eq!(text.snap_to_scope(at(0, 1, 7), Scope::Sentence), at(0, 1, 0));
    assert_eq!(text.snap_to_scope(at(0, 7, 3), Scope::Paragraph), at(0, 6, 0));
    assert_eq!(text.unit_id_at(at(0, 4, 0), Scope::Line).map(|id| id.start_line), Some(2));
    assert_eq!(text.unit_id_at(at(0, 4, 0), Scope::Word), None);
}

#[test]
fn a_failed_line_step_still_puts_the_caret_at_the_line_start() {
    let text = table_page();
    let mut caret = at(0, 7, 5);
    assert!(!text.step_in_reading_order(&mut caret, Scope::Line, true));
    assert_eq!(caret, at(0, 7, 0));
    let mut caret = at(0, 0, 3);
    assert!(!text.step_in_reading_order(&mut caret, Scope::Char, true) || caret == at(0, 0, 4));
}

#[test]
fn a_counted_motion_repeats_and_stops_at_the_edge() {
    let text = table_page();
    assert_eq!(text.repeat_unit_steps(at(0, 0, 0), Scope::Line, true, Some(3)), at(0, 6, 0));
    assert_eq!(text.repeat_unit_steps(at(0, 0, 0), Scope::Line, true, None), at(0, 1, 0));
    assert_eq!(text.repeat_unit_steps(at(0, 0, 0), Scope::Line, true, Some(0)), at(0, 1, 0));
    assert_eq!(text.repeat_unit_steps(at(0, 0, 0), Scope::Line, true, Some(100)), at(0, 7, 0));
    assert_eq!(text.repeat_unit_steps(at(0, 7, 0), Scope::Line, false, Some(2)), at(0, 2, 0));
}

fn unfocused() -> SelectionState {
    SelectionState {
        mode: Mode::Normal,
        focus: None,
        focus_scope: Scope::Char,
        visual: None,
        pending: None,
    }
}

#[test]
fn entering_focus_starts_at_the_entry_line_on_a_unit_start() {
    let text = table_page();
    let mut s = unfocused();
    let (e, kept) = s.enter_focus(&text, true, Scope::Word, Some(at(0, 0, 3)));
    assert!(e.redraw);
    assert_eq!(kept, None);
    assert_eq!(s.mode, Mode::Focus);
    assert_eq!(s.focus_scope, Scope::Word);
    assert_eq!(s.focus, Some(at(0, 0, 0)));
    // `ce` after `cw`: the same place, reinterpreted as its line.
    s.enter_focus(&text, true, Scope::Line, None);
    assert_eq!(s.focus, Some(at(0, 0, 0)));
    assert_eq!(s.focus_scope, Scope::Line);
}

#[test]
fn entering_focus_without_a_document_does_nothing() {
    let text = table_page();
    let mut s = unfocused();
    assert_eq!(s.enter_focus(&text, false, Scope::Word, Some(at(0, 0, 0))).0, Default::default());
    assert_eq!(s, unfocused());
}

#[test]
fn entering_focus_drops_the_selection() {
    let text = table_page();
    let mut s = SelectionState {
        mode: Mode::Visual,
        focus: Some(at(0, 4, 2)),
        focus_scope: Scope::Char,
        visual: Some(VisualAnchor { anchor: at(0, 0, 0), anchor_scope: Scope::Char, return_mode: Mode::Normal }),
        pending: None,
    };
    s.enter_focus(&text, true, Scope::Line, None);
    assert_eq!(s.visual, None);
    assert_eq!(s.mode, Mode::Focus);
    // Inside the table at line scope: the whole table is the unit.
    assert_eq!(s.focus, Some(at(0, 2, 0)));
}

#[test]
fn focus_motion_counts_a_table_as_one_step() {
    let text = table_page();
    let mut s = unfocused();
    s.enter_focus(&text, true, Scope::Line, Some(at(0, 0, 0)));
    let (e, _) = s.move_focus(&text, true, Scope::Line, true, Some(3), None);
    assert!(e.redraw);
    assert_eq!(s.focus, Some(at(0, 6, 0)));
    s.move_focus(&text, true, Scope::Paragraph, false, None, None);
    assert_eq!(s.focus, Some(at(0, 2, 0)));
    assert_eq!(s.focus_scope, Scope::Line);
}

#[test]
fn focus_motion_with_nothing_focused_enters_focus() {
    let text = table_page();
    let mut s = unfocused();
    s.focus_scope = Scope::Word;
    s.move_focus(&text, true, Scope::Word, true, None, Some(at(0, 1, 2)));
    assert_eq!(s.mode, Mode::Focus);
    assert_eq!(s.focus, Some(at(0, 1, 0)));
}

#[test]
fn committing_a_highlight_keeps_it_and_returns_to_focus() {
    let text = table_page();
    let mut s = unfocused();
    s.enter_focus(&text, true, Scope::Word, Some(at(0, 0, 0)));
    s.enter_highlight(true, "#ffee00");
    s.move_head(&text, Scope::Word, true, Some(3));
    assert_eq!(s.focus, Some(at(0, 1, 0)));
    let (e, kept) = s.commit_highlight(&text, true);
    assert!(e.redraw);
    assert_eq!(kept.map(|p| p.color), Some("#ffee00".to_string()));
    assert_eq!(s.mode, Mode::Focus);
    assert_eq!(s.visual, None);
    assert_eq!(s.pending, None);
    assert_eq!(s.focus, Some(at(0, 1, 0)));
    let before = s.clone();
    assert_eq!(s.commit_highlight(&text, true), (Default::default(), None));
    assert_eq!(s, before);
}

#[test]
fn the_moving_end_moves_and_the_anchor_stays() {
    let text = table_page();
    let anchor = VisualAnchor { anchor: at(0, 0, 0), anchor_scope: Scope::Line, return_mode: Mode::Normal };
    let mut s = SelectionState {
        mode: Mode::Visual,
        focus: Some(at(0, 0, 0)),
        focus_scope: Scope::Line,
        visual: Some(anchor),
        pending: None,
    };
    assert!(s.move_head(&text, Scope::Line, true, Some(2)).redraw);
    assert_eq!(s.focus, Some(at(0, 2, 0)));
    assert_eq!(s.visual, Some(anchor));
    let mut none = unfocused();
    assert_eq!(none.move_head(&text, Scope::Line, true, None), Default::default());
    assert_eq!(none, unfocused());
}
