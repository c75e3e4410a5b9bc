//! Key-driven scenarios: a small reader over one page of text that turns the
//! focus-mode keys (`c` + scope, `w`/`b`/`e`/`s`/`p`, and `hjkl` along the
//! reading order) into calls of the library, and reads back the focused span
//! and its text.

use syodep::caret::{line_ends_with_colon, Caret, Cell, CellKind, ContentObject, Scope};
use syodep::object_policy::ObjectTraits;
use syodep::caret::Mode;
use syodep::selection::{selection_span, SelectionState};
use syodep::status::StatusLine;
use syodep::words::DocumentText;

const PLAIN: ObjectTraits = ObjectTraits {
    atomic: false,
    block: false,
    splits_paragraphs: false,
    one_sentence: false,
    list_item: false,
    footnote: false,
    caption: false,
};
const HEADING: ObjectTraits = ObjectTraits { one_sentence: true, splits_paragraphs: true, ..PLAIN };
const EQUATION: ObjectTraits =
    ObjectTraits { one_sentence: true, block: true, splits_paragraphs: true, ..PLAIN };
const LIST_ITEM: ObjectTraits = ObjectTraits { list_item: true, ..PLAIN };
const TABLE: ObjectTraits = ObjectTraits { block: true, splits_paragraphs: true, ..PLAIN };
const FOOTNOTE: ObjectTraits =
    ObjectTraits { footnote: true, block: true, splits_paragraphs: true, ..PLAIN };

fn cells(text: &str) -> Vec<Cell> {
    text.chars()
        .map(|ch| Cell {
            kind: CellKind::Char(ch),
            synthetic: false,
        })
        .collect()
}

fn object(start_line: usize, end_line: usize, kind: ObjectTraits) -> ContentObject {
    ContentObject { start_line, end_line, kind }
}

/// Evenly spaced lines group into one paragraph, broken after a line that
/// ends in a colon.
fn evenly_spaced_groups(lines: &[Vec<Cell>]) -> Vec<(usize, usize)> {
    let mut groups = Vec::new();
    let mut start = 0;
    for i in 0..lines.len() {
        if i + 1 == lines.len() || line_ends_with_colon(&lines[i]) {
            groups.push((start, i));
            start = i + 1;
        }
    }
    groups
}

fn page(texts: &[&str], objects: Vec<ContentObject>) -> DocumentText {
    let lines: Vec<Vec<Cell>> = texts.iter().map(|t| cells(t)).collect();
    let groups = evenly_spaced_groups(&lines);
    DocumentText {
        pages: vec![lines],
        objects: vec![objects],
        paragraphs: vec![groups],
    }
}

struct Reader {
    text: DocumentText,
    state: SelectionState,
}

fn reader(text: DocumentText) -> Reader {
    Reader {
        text,
        state: SelectionState {
            mode: Mode::Normal,
            focus: None,
            focus_scope: Scope::Char,
            visual: None,
            pending: None,
        },
    }
}

fn with_line(text: &str) -> Reader {
    reader(page(&[text], Vec::new()))
}

/// One line of text on each page.
fn with_text_pages(pages: &[&str]) -> Reader {
    let pages: Vec<Vec<Vec<Cell>>> = pages.iter().map(|t| vec![cells(t)]).collect();
    let groups = pages.iter().map(|_| vec![(0, 0)]).collect();
    reader(DocumentText {
        objects: vec![Vec::new(); pages.len()],
        pages,
        paragraphs: groups,
    })
}

fn with_two_lines(first: &str, second: &str) -> Reader {
    reader(page(&[first, second], Vec::new()))
}

fn with_synthetic_line(text: &str, synthetic_at: &[usize]) -> Reader {
    let mut doc = page(&[text], Vec::new());
    for &i in synthetic_at {
        doc.pages[0][0][i].synthetic = true;
    }
    reader(doc)
}

/// A lead-in line, three bulleted items (one of them wrapping) and a closing
/// sentence.
fn with_list_page() -> Reader {
    reader(page(
        &[
            "The files created by the tool are:",
            "\u{2022} the globs file",
            "\u{2022} the magic file, which maps content",
            "to types by inspection",
            "\u{2022} the aliases file",
            "Each of them is regenerated in turn.",
        ],
        vec![object(1, 1, LIST_ITEM), object(2, 3, LIST_ITEM), object(4, 4, LIST_ITEM)],
    ))
}

/// Evenly spaced lines: line 2 is a numbered heading and lines 5-6 are a
/// heading that wraps.
fn heading_page() -> DocumentText {
    page(
        &[
            "Alpha beta.",
            "Gamma delta.",
            "2.10. Storing the type",
            "Body text here. More text.",
            "Second body line.",
            "A very long heading that",
            "wraps onto two lines",
            "Final prose line.",
        ],
        vec![object(2, 2, HEADING), object(5, 6, HEADING)],
    )
}

fn with_subsection_heading_page() -> Reader {
    reader(page(
        &[
            "Opening prose sentence.",
            "1.1. The ENDF format and nuclear data libraries",
            "Evaluated nuclear data encapsulate the known physics.",
        ],
        vec![object(1, 1, HEADING)],
    ))
}

/// Prose, a two-line display equation on lines 2-3 whose first line ends in
/// a full stop, then prose.
fn equation_page() -> DocumentText {
    page(
        &["Alpha beta.", "We obtain the bound", "f(x) = 0.", "g(y) = 1.", "Final prose line."],
        vec![object(2, 3, EQUATION)],
    )
}

/// Prose, then a four-line table on lines 2..=5, then more prose after a
/// wider gap.
fn with_table_page() -> Reader {
    let mut doc = page(
        &[
            "Alpha beta.",
            "Gamma delta.",
            "R1C1 R1C2",
            "R2C1 R2C2",
            "R3C1 R3C2",
            "R4C1 R4C2",
            "Omega final.",
            "Last one here.",
        ],
        vec![object(2, 5, TABLE)],
    );
    doc.paragraphs = vec![vec![(0, 5), (6, 7)]];
    reader(doc)
}

/// Prose, a one-line footnote far below it, then more prose.
fn with_footnote_page() -> Reader {
    let mut doc = page(
        &[
            "Alpha beta gamma.",
            "Delta epsilon zeta.",
            "1 A footnote sentence here.",
            "Eta theta iota.",
        ],
        vec![object(2, 2, FOOTNOTE)],
    );
    doc.paragraphs = vec![vec![(0, 1), (2, 2), (3, 3)]];
    reader(doc)
}

impl Reader {
    /// Press a sequence of keys: `c` or `v` followed by a scope letter
    /// enters focus or visual mode at that scope (a bare `v` inherits the
    /// scope); in visual mode `v` plus a scope sets the moving end's scope,
    /// `o` plus a scope switches ends first, `oo` swaps the ends and a bare
    /// `v` leaves; `a` starts a highlight. An optional count may precede a
    /// motion.
    fn press(&mut self, keys: &str) {
        let keys: Vec<char> = keys.chars().collect();
        let scope_of = |c: char| match c {
            'c' => Some(Scope::Char),
            'w' => Some(Scope::Word),
            'e' => Some(Scope::Line),
            's' => Some(Scope::Sentence),
            'p' => Some(Scope::Paragraph),
            _ => None,
        };
        let entry = Some(Caret { page: 0, line: 0, cell: 0 });
        let mut i = 0;
        while i < keys.len() {
            let next = keys.get(i + 1).copied().and_then(scope_of);
            let selecting = matches!(self.state.mode, Mode::Visual | Mode::Highlight);
            match keys[i] {
                'c' => {
                    self.state.enter_focus(&self.text, true, next.unwrap(), entry);
                    i += 2;
                    continue;
                }
                'v' if !selecting => {
                    self.state.enter_visual(true, next, entry);
                    i += if next.is_some() { 2 } else { 1 };
                    continue;
                }
                'v' => {
                    match next {
                        Some(scope) => {
                            self.state.set_head_scope(scope, false);
                            i += 2;
                        }
                        None => {
                            self.state.exit_visual();
                            i += 1;
                        }
                    }
                    continue;
                }
                'o' if selecting => {
                    if keys.get(i + 1) == Some(&'o') {
                        self.state.visual_swap_ends();
                    } else {
                        self.state.set_head_scope(next.unwrap(), true);
                    }
                    i += 2;
                    continue;
                }
                'a' => {
                    if self.state.mode == Mode::Highlight {
                        self.state.commit_highlight(&self.text, true);
                    } else {
                        self.state.enter_highlight(true, "#ffee00");
                    }
                    i += 1;
                    continue;
                }
                _ => {}
            }
            let mut count: Option<u32> = None;
            while keys[i].is_ascii_digit() {
                count = Some(count.unwrap_or(0) * 10 + keys[i].to_digit(10).unwrap());
                i += 1;
            }
            let here = self.state.focus_scope;
            let along = matches!(here, Scope::Line | Scope::Sentence | Scope::Paragraph);
            let (scope, forward) = match keys[i] {
                'w' => (Scope::Word, true),
                'b' => (Scope::Word, false),
                'e' => (Scope::Line, true),
                's' => (Scope::Sentence, true),
                'p' => (Scope::Paragraph, true),
                'j' if along => (here, true),
                'k' if along => (here, false),
                'l' if !along => (here, true),
                'h' if !along => (here, false),
                other => panic!("{other} moves across the reading order at {here:?}"),
            };
            if selecting {
                self.state.move_head(&self.text, scope, forward, count);
            } else {
                self.state.move_focus(&self.text, true, scope, forward, count, None);
            }
            i += 1;
        }
    }

    /// The status line for the current mode and selection.
    fn status_text(&self) -> String {
        StatusLine {
            document: None,
            mode: self.state.mode,
            focus_scope: self.state.focus_scope,
            focus_span: None,
            visual: self.state.visual,
            visual_span: self.state.visual.map(|_| self.visual_span()),
            pending: None,
            message: None,
            error: None,
        }
        .text()
    }

    /// The selection: each end expanded by its own scope, from the earliest
    /// edge to the latest.
    fn visual_span(&self) -> (Caret, Caret) {
        let anchor = self.state.visual.unwrap();
        selection_span(
            self.text.scope_span(anchor.anchor, anchor.anchor_scope),
            self.text.scope_span(self.caret(), self.state.focus_scope),
        )
    }

    fn caret(&self) -> Caret {
        self.state.focus.unwrap()
    }

    fn focus_span(&self) -> (Caret, Caret) {
        self.text.scope_span(self.caret(), self.state.focus_scope)
    }

    fn span_text(&self) -> String {
        let (start, end) = self.focus_span();
        self.text.span_text(start, end)
    }

    fn assert_caret(&self, page: usize, line: usize, cell: usize) {
        let caret = self.caret();
        assert_eq!((caret.page, caret.line, caret.cell), (page, line, cell));
    }

    /// Repeat `key` until the caret reaches `line`, panicking if it never does.
    fn press_until_line(&mut self, key: &str, line: usize) {
        for _ in 0..12 {
            if self.caret().line == line {
                return;
            }
            self.press(key);
        }
        panic!("{key} never reached line {line}");
    }
}

// ---- Lists ------------------------------------------------------------

#[test]
fn the_lead_in_prose_does_not_run_into_the_list() {
    let mut app = with_list_page();
    app.press("cs");
    let (start, end) = app.focus_span();
    assert_eq!((start.line, end.line), (0, 0), "the colon line swallowed the list");
}

#[test]
fn each_list_item_is_its_own_sentence() {
    let mut app = with_list_page();
    app.press("cs");
    app.press("s");
    assert_eq!(app.span_text(), "\u{2022} the globs file");
    app.press("s");
    // The second item wraps onto the line below, and carries it along.
    let (start, end) = app.focus_span();
    assert_eq!((start.line, end.line), (2, 3));
    app.press("s");
    let (start, _) = app.focus_span();
    assert_eq!(start.line, 4, "the third item should start its own sentence");
}

#[test]
fn the_last_item_does_not_run_on_into_the_prose_after_the_list() {
    let mut app = with_list_page();
    app.press("cs");
    app.press("sss");
    let (start, end) = app.focus_span();
    assert_eq!((start.line, end.line), (4, 4));
    app.press("s");
    assert_eq!(app.span_text(), "Each of them is regenerated in turn.");
}

#[test]
fn a_list_is_still_one_paragraph() {
    let mut app = with_list_page();
    app.press("cp");
    let (start, end) = app.focus_span();
    assert_eq!((start.line, end.line), (0, 0), "colon lead-in is its own paragraph");
    app.press("j");
    let (start, end) = app.focus_span();
    assert_eq!(
        (start.line, end.line),
        (1, 5),
        "list items must not split the paragraph that follows the lead-in"
    );
}

#[test]
fn a_numbered_item_is_one_sentence_including_its_marker() {
    let mut app = reader(page(
        &["1. First point of the list", "2. Second point of the list"],
        vec![object(0, 0, LIST_ITEM), object(1, 1, LIST_ITEM)],
    ));
    app.press("cs");
    assert_eq!(app.span_text(), "1. First point of the list");
    app.press("s");
    assert_eq!(app.span_text(), "2. Second point of the list");
}

#[test]
fn word_motion_is_unaffected_by_a_list() {
    let mut app = with_list_page();
    app.press("cw");
    for _ in 0..12 {
        if app.caret().line == 1 {
            break;
        }
        app.press("w");
    }
    assert_eq!(app.caret().line, 1, "never reached the first item");
    assert_eq!(app.span_text(), "\u{2022}");
    app.press("w");
    assert_eq!(app.span_text(), "the");
}

// ---- Abbreviations ----------------------------------------------------

#[test]
fn dotted_initials_do_not_break_a_sentence() {
    let mut app = with_line("Use a glob, e.g. the star form. Then stop.");
    app.press("cs");
    assert_eq!(app.span_text(), "Use a glob, e.g. the star form.");
}

#[test]
fn dotted_initials_are_one_word() {
    let mut app = with_line("Use a glob, e.g. the star form.");
    app.press("cw");
    app.press("www"); // Use, a, glob, then the comma
    app.press("w");
    assert_eq!(app.span_text(), "e.g.");
    app.press("w");
    assert_eq!(app.span_text(), "the");
}

#[test]
fn a_known_abbreviation_does_not_break_a_sentence() {
    let mut app = with_line("As shown in Fig. 3 the glob wins. Then stop.");
    app.press("cs");
    assert_eq!(app.span_text(), "As shown in Fig. 3 the glob wins.");
}

#[test]
fn an_abbreviation_still_ends_a_sentence_before_a_capital() {
    let mut app = with_line("Globs, magic, etc. The next sentence here.");
    app.press("cs");
    assert_eq!(app.span_text(), "Globs, magic, etc.");
    app.press("s");
    assert_eq!(app.span_text(), "The next sentence here.");
}

#[test]
fn an_abbreviation_before_a_lower_case_word_keeps_the_sentence() {
    let mut app = with_line("Globs, magic, etc. and then more. Next.");
    app.press("cs");
    assert_eq!(app.span_text(), "Globs, magic, etc. and then more.");
}

#[test]
fn a_bracketed_abbreviation_is_one_word_between_its_brackets() {
    let mut app = with_line("Many globs (e.g., the star form) work.");
    app.press("cw");
    app.press("w");
    assert_eq!(app.span_text(), "globs");
    app.press("w");
    assert_eq!(app.span_text(), "(");
    app.press("w");
    assert_eq!(app.span_text(), "e.g.");
    app.press("w");
    assert_eq!(app.span_text(), ",");
    app.press("w");
    assert_eq!(app.span_text(), "the");
}

#[test]
fn a_bracketed_abbreviation_does_not_break_a_sentence() {
    let mut app = with_line("Many globs (e.g., the star) work. Then stop.");
    app.press("cs");
    assert_eq!(app.span_text(), "Many globs (e.g., the star) work.");
}

#[test]
fn an_abbreviation_before_a_comma_keeps_the_sentence_even_before_a_capital() {
    let mut app = with_line("Recent work (e.g., Smith 2020) shows it. Next.");
    app.press("cs");
    assert_eq!(app.span_text(), "Recent work (e.g., Smith 2020) shows it.");
}

#[test]
fn a_bracket_after_an_abbreviation_can_still_close_a_sentence() {
    let mut app = with_line("Globs and magic (etc.) Then more.");
    app.press("cs");
    assert_eq!(app.span_text(), "Globs and magic (etc.)");
    app.press("s");
    assert_eq!(app.span_text(), "Then more.");
}

#[test]
fn a_quoted_abbreviation_is_still_one_word() {
    let mut app = with_line("Globs, magic, [etc.] and more.");
    app.press("cw");
    app.press("wwww"); // comma, magic, comma, then the bracket
    assert_eq!(app.span_text(), "[");
    app.press("w");
    assert_eq!(app.span_text(), "etc.");
    app.press("w");
    assert_eq!(app.span_text(), "]");
}

#[test]
fn an_ordinary_word_before_a_lower_case_word_still_ends_the_sentence() {
    let mut app = with_line("It scans all the data. glob rules follow.");
    app.press("cs");
    assert_eq!(app.span_text(), "It scans all the data.");
}

// ---- Numbers ----------------------------------------------------------

#[test]
fn a_decimal_number_is_one_word() {
    let mut app = with_line("pi is 3.14 exactly");
    app.press("cw");
    app.press("ww"); // "pi", "is", then the number
    assert_eq!(app.span_text(), "3.14");
    app.press("w");
    assert_eq!(app.span_text(), "exactly");
}

#[test]
fn a_grouped_number_is_one_word() {
    let mut app = with_line("about 1,234.56 units");
    app.press("cw");
    app.press("w");
    assert_eq!(app.span_text(), "1,234.56");
}

#[test]
fn a_full_stop_after_a_number_is_still_its_own_word() {
    let mut app = with_line("it costs 3. Next");
    app.press("cw");
    app.press("ww");
    assert_eq!(app.span_text(), "3");
    app.press("w");
    assert_eq!(app.span_text(), ".");
}

#[test]
fn a_decimal_point_does_not_end_a_sentence() {
    let mut app = with_line("pi is 3.14 exactly. Then more.");
    app.press("cs");
    assert_eq!(app.span_text(), "pi is 3.14 exactly.");
}

#[test]
fn a_dotted_version_token_is_one_word() {
    let mut app = with_line("see B-VII.0 next");
    app.press("cw");
    app.press("w"); // "see", then the version token
    assert_eq!(app.span_text(), "B-VII.0");
    app.press("w");
    assert_eq!(app.span_text(), "next");
}

#[test]
fn a_dotted_version_token_does_not_end_a_sentence() {
    let mut app = with_line("released in 2006 (ENDF/B-VII.0), 2011 (ENDF/B-VII.1) and 2018.");
    app.press("cs");
    assert_eq!(
        app.span_text(),
        "released in 2006 (ENDF/B-VII.0), 2011 (ENDF/B-VII.1) and 2018."
    );
}

#[test]
fn a_dotted_filename_is_one_word() {
    let mut app = with_line("open file.txt now");
    app.press("cw");
    app.press("w");
    assert_eq!(app.span_text(), "file.txt");
    app.press("w");
    assert_eq!(app.span_text(), "now");
}

#[test]
fn a_dotted_token_survives_a_synthetic_space_before_its_separator() {
    let text = "id 9p4kxc2cvd .1 done";
    let synthetic_space = text.find(" .1").unwrap();
    let mut app = with_synthetic_line(text, &[synthetic_space]);
    app.press("cw");
    app.press("w"); // "id", then the dotted token
    assert_eq!(app.span_text(), "9p4kxc2cvd .1");
    app.press("w");
    assert_eq!(app.span_text(), "done");
}

#[test]
fn a_synthetic_space_does_not_merge_two_unrelated_words() {
    let text = "cache Foo next";
    let synthetic_space = text.find(' ').unwrap();
    let mut app = with_synthetic_line(text, &[synthetic_space]);
    app.press("cw");
    assert_eq!(app.span_text(), "cache");
    app.press("w");
    assert_eq!(app.span_text(), "Foo");
    app.press("w");
    assert_eq!(app.span_text(), "next");
}

#[test]
fn a_chain_of_dotted_identifiers_is_one_word() {
    let mut app = with_line("see a.b.c next");
    app.press("cw");
    app.press("w");
    assert_eq!(app.span_text(), "a.b.c");
    app.press("w");
    assert_eq!(app.span_text(), "next");
}

#[test]
fn a_dotted_token_does_not_join_across_a_space() {
    let mut app = with_line("word. Next");
    app.press("cs");
    assert_eq!(app.span_text(), "word.");
    app.press("s");
    assert_eq!(app.span_text(), "Next");
}

#[test]
fn a_sentence_ends_across_a_synthetic_space_after_the_stop() {
    let text = "reactor. Efficacy next.";
    let synthetic_space = text.find(". ").unwrap() + 1;
    let mut app = with_synthetic_line(text, &[synthetic_space]);
    app.press("cs");
    assert_eq!(app.span_text(), "reactor.");
    app.press("s");
    assert_eq!(app.span_text(), "Efficacy next.");
}

#[test]
fn a_grouped_number_does_not_end_a_sentence() {
    let mut app = with_line("we saw 1,234.56 of them. Then more.");
    app.press("cs");
    assert_eq!(app.span_text(), "we saw 1,234.56 of them.");
}

#[test]
fn a_full_stop_after_a_number_still_ends_a_sentence() {
    let mut app = with_line("it costs 3. Then more.");
    app.press("cs");
    assert_eq!(app.span_text(), "it costs 3.");
}

#[test]
fn a_sentence_motion_steps_over_a_number_rather_than_into_it() {
    let mut app = with_line("pi is 3.14 exactly. Then more.");
    app.press("cs");
    app.press("s");
    assert_eq!(app.span_text(), "Then more.");
}

#[test]
fn a_percentage_is_one_word() {
    let mut app = with_line("about 45.5% of them");
    app.press("cw");
    app.press("w");
    assert_eq!(app.span_text(), "45.5%");
    app.press("w");
    assert_eq!(app.span_text(), "of");
}

#[test]
fn a_percent_sign_without_a_figure_is_still_its_own_word() {
    let mut app = with_line("the % sign here");
    app.press("cw");
    app.press("w");
    assert_eq!(app.span_text(), "%");
}

#[test]
fn a_full_stop_after_a_percentage_still_ends_a_sentence() {
    let mut app = with_line("It grew 45.5%. Then more.");
    app.press("cs");
    assert_eq!(app.span_text(), "It grew 45.5%.");
}

#[test]
fn scientific_notation_is_one_word() {
    let mut app = with_line("about 1.5e-10 metres");
    app.press("cw");
    app.press("w");
    assert_eq!(app.span_text(), "1.5e-10");
    app.press("w");
    assert_eq!(app.span_text(), "metres");
}

#[test]
fn scientific_notation_with_a_signed_exponent_is_one_word() {
    let mut app = with_line("about 2.3E+5 units");
    app.press("cw");
    app.press("w");
    assert_eq!(app.span_text(), "2.3E+5");
}

#[test]
fn scientific_notation_does_not_end_a_sentence() {
    let mut app = with_line("It is 1.5e-10 exactly. Then more.");
    app.press("cs");
    assert_eq!(app.span_text(), "It is 1.5e-10 exactly.");
}

#[test]
fn a_plus_after_a_word_is_still_its_own_word() {
    let mut app = with_line("the cache+1 case");
    app.press("cw");
    app.press("w");
    assert_eq!(app.span_text(), "cache");
    app.press("w");
    assert_eq!(app.span_text(), "+");
    app.press("w");
    assert_eq!(app.span_text(), "1");
}

// ---- Links ------------------------------------------------------------

#[test]
fn a_url_is_one_word() {
    let mut app = with_line("See https://example.com/a?x=1 for more");
    app.press("cw");
    app.press("w");
    assert_eq!(app.span_text(), "https://example.com/a?x=1");
    app.press("w");
    assert_eq!(app.span_text(), "for");
}

#[test]
fn a_url_does_not_break_a_sentence() {
    let mut app = with_line("See https://example.com/a.html for it. Then.");
    app.press("cs");
    assert_eq!(app.span_text(), "See https://example.com/a.html for it.");
}

#[test]
fn a_stop_after_a_url_is_its_own_word_and_ends_the_sentence() {
    let mut app = with_line("See https://example.com. Then more.");
    app.press("cs");
    assert_eq!(app.span_text(), "See https://example.com.");
    app.press("cw");
    app.press("w");
    assert_eq!(app.span_text(), "https://example.com");
    app.press("w");
    assert_eq!(app.span_text(), ".");
}

#[test]
fn a_bracketed_url_is_one_word_between_its_brackets() {
    let mut app = with_line("see (https://doi.org/10.1000/182) there");
    app.press("cw");
    app.press("w");
    assert_eq!(app.span_text(), "(");
    app.press("w");
    assert_eq!(app.span_text(), "https://doi.org/10.1000/182");
    app.press("w");
    assert_eq!(app.span_text(), ")");
}

#[test]
fn a_url_keeps_a_bracket_that_is_part_of_it() {
    let mut app = with_line("at https://x.org/wiki/Glob_(pattern) today");
    app.press("cw");
    app.press("w");
    assert_eq!(app.span_text(), "https://x.org/wiki/Glob_(pattern)");
}

#[test]
fn a_url_survives_a_synthetic_space_inside_it() {
    let text = "see https://github .com/njoy/ENDFtk today";
    let synthetic_space = text.find(" .com").unwrap();
    let mut app = with_synthetic_line(text, &[synthetic_space]);
    app.press("cw");
    app.press("w");
    assert_eq!(app.span_text(), "https://github .com/njoy/ENDFtk");
    app.press("w");
    assert_eq!(app.span_text(), "today");
}

#[test]
fn a_synthetic_space_does_not_end_a_sentence_inside_a_link() {
    let text = "See https://github .com/njoy/ENDFtk today. Then more.";
    let synthetic_space = text.find(" .com").unwrap();
    let mut app = with_synthetic_line(text, &[synthetic_space]);
    app.press("cs");
    assert_eq!(app.span_text(), "See https://github .com/njoy/ENDFtk today.");
}

#[test]
fn a_url_survives_a_real_space_inside_it() {
    let mut app = with_line("see https://doi .org /10 .17632 /9p4kxc2cvd .1 today");
    app.press("cw");
    app.press("w");
    assert_eq!(app.span_text(), "https://doi .org /10 .17632 /9p4kxc2cvd .1");
    app.press("w");
    assert_eq!(app.span_text(), "today");
}

#[test]
fn a_real_space_does_not_merge_ordinary_prose_around_a_slash() {
    let mut app = with_line("one and / or two");
    app.press("cw");
    app.press("w");
    assert_eq!(app.span_text(), "and");
    app.press("w");
    assert_eq!(app.span_text(), "/");
    app.press("w");
    assert_eq!(app.span_text(), "or");
}

#[test]
fn a_bare_host_with_a_path_is_one_word() {
    let mut app = with_line("see doi.org/10.1000/182 and www.example.com/x");
    app.press("cw");
    app.press("w");
    assert_eq!(app.span_text(), "doi.org/10.1000/182");
    app.press("w");
    assert_eq!(app.span_text(), "and");
    app.press("w");
    assert_eq!(app.span_text(), "www.example.com/x");
}

#[test]
fn an_email_address_is_one_word() {
    let mut app = with_line("write to jane.doe@example.com today");
    app.press("cw");
    app.press("ww");
    assert_eq!(app.span_text(), "jane.doe@example.com");
    app.press("w");
    assert_eq!(app.span_text(), "today");
}

#[test]
fn a_word_pair_joined_by_a_slash_is_not_a_link() {
    let mut app = with_line("one and/or two");
    app.press("cw");
    app.press("w");
    assert_eq!(app.span_text(), "and");
    app.press("w");
    assert_eq!(app.span_text(), "/");
    app.press("w");
    assert_eq!(app.span_text(), "or");
}

// ---- Hyphens ----------------------------------------------------------

#[test]
fn a_hyphenated_compound_is_one_word() {
    let mut app = with_line("a well-known result");
    app.press("cw");
    app.press("w");
    assert_eq!(app.span_text(), "well-known");
    app.press("w");
    assert_eq!(app.span_text(), "result");
}

#[test]
fn a_multiply_hyphenated_compound_is_one_word() {
    let mut app = with_line("the state-of-the-art method");
    app.press("cw");
    app.press("w");
    assert_eq!(app.span_text(), "state-of-the-art");
}

#[test]
fn a_hyphen_joins_letters_to_digits() {
    let mut app = with_line("the COVID-19 data");
    app.press("cw");
    app.press("w");
    assert_eq!(app.span_text(), "COVID-19");
}

#[test]
fn a_hyphenated_compound_walks_backwards_as_one_word() {
    let mut app = with_line("a well-known result");
    app.press("cw");
    app.press("www"); // a, well-known, result
    app.press("b");
    assert_eq!(app.span_text(), "well-known");
}

#[test]
fn a_spaced_hyphen_is_still_its_own_word() {
    let mut app = with_line("one - two");
    app.press("cw");
    app.press("w");
    assert_eq!(app.span_text(), "-");
    app.press("w");
    assert_eq!(app.span_text(), "two");
}

#[test]
fn a_trailing_hyphen_is_still_its_own_word() {
    let mut app = with_line("the well- known result");
    app.press("cw");
    app.press("w");
    assert_eq!(app.span_text(), "well");
    app.press("w");
    assert_eq!(app.span_text(), "-");
}

#[test]
fn an_em_dash_between_words_does_not_join_them() {
    let mut app = with_line("one\u{2014}two three");
    app.press("cw");
    assert_eq!(app.span_text(), "one");
    app.press("w");
    assert_eq!(app.span_text(), "\u{2014}");
    app.press("w");
    assert_eq!(app.span_text(), "two");
}

#[test]
fn a_double_hyphen_between_words_does_not_join_them() {
    let mut app = with_line("one--two three");
    app.press("cw");
    app.press("w");
    assert_eq!(app.span_text(), "--");
    app.press("w");
    assert_eq!(app.span_text(), "two");
}

// ---- Colons -----------------------------------------------------------

#[test]
fn a_line_final_colon_ends_the_sentence() {
    let mut app = with_two_lines("A lead-in:", "Continued text here.");
    app.press("cs");
    assert_eq!(app.span_text(), "A lead-in:");
    app.press("s");
    assert_eq!(app.span_text(), "Continued text here.");
}

#[test]
fn a_line_final_colon_with_trailing_spaces_ends_the_sentence() {
    let mut app = with_two_lines("A lead-in:  ", "Continued text here.");
    app.press("cs");
    assert_eq!(app.span_text(), "A lead-in:");
    app.press("s");
    assert_eq!(app.span_text(), "Continued text here.");
}

#[test]
fn a_mid_line_colon_does_not_end_a_sentence() {
    let mut app = with_line("Note: more words here.");
    app.press("cs");
    assert_eq!(app.span_text(), "Note: more words here.");
}

// ---- Headings ---------------------------------------------------------

#[test]
fn sentence_motion_treats_a_heading_as_one_step() {
    let mut app = reader(heading_page());
    app.press("cs");
    app.press("ss"); // past both prose sentences
    app.assert_caret(0, 2, 0);
    let (start, end) = app.focus_span();
    assert_eq!((start.line, end.line), (2, 2), "the heading is one sentence");
    app.press("s");
    assert_eq!(app.caret().line, 3, "next s must leave the heading");
}

#[test]
fn a_numbered_heading_is_still_one_sentence() {
    let mut app = reader(heading_page());
    app.press("cs");
    app.press("ss");
    let (start, end) = app.focus_span();
    let last = heading_page().pages[0][2].len() - 1;
    assert_eq!((start.line, start.cell), (2, 0));
    assert_eq!((end.line, end.cell), (2, last));
}

#[test]
fn a_body_size_subsection_heading_is_one_sentence_step() {
    let mut app = with_subsection_heading_page();
    app.press("cs");
    assert_eq!(app.span_text(), "Opening prose sentence.");
    app.press("s");
    assert_eq!(app.span_text(), "1.1. The ENDF format and nuclear data libraries");
    app.press("s");
    assert_eq!(app.span_text(), "Evaluated nuclear data encapsulate the known physics.");
}

#[test]
fn a_body_size_subsection_heading_is_one_paragraph_step() {
    let mut app = with_subsection_heading_page();
    app.press("cp");
    assert_eq!(app.span_text(), "Opening prose sentence.");
    app.press("p");
    assert_eq!(app.span_text(), "1.1. The ENDF format and nuclear data libraries");
    app.press("p");
    assert_eq!(app.span_text(), "Evaluated nuclear data encapsulate the known physics.");
}

#[test]
fn a_sentence_above_a_heading_does_not_run_into_it() {
    let mut app = reader(heading_page());
    app.press("cs");
    app.press("s");
    let (_, end) = app.focus_span();
    assert_eq!(end.line, 1, "sentence leaked into the heading");
}

#[test]
fn a_wrapped_heading_is_one_sentence_across_both_lines() {
    let mut app = reader(heading_page());
    app.press("cs");
    app.press_until_line("s", 5);
    let (start, end) = app.focus_span();
    assert_eq!((start.line, end.line), (5, 6));
}

#[test]
fn paragraph_motion_treats_a_heading_as_one_paragraph() {
    let mut app = reader(heading_page());
    app.press("cp");
    let (start, end) = app.focus_span();
    assert_eq!((start.line, end.line), (0, 1));
    app.press("p");
    app.assert_caret(0, 2, 0);
    let (s, e) = app.focus_span();
    assert_eq!((s.line, e.line), (2, 2));
    app.press("p");
    app.assert_caret(0, 3, 0);
}

#[test]
fn the_paragraph_below_a_heading_excludes_it() {
    let mut app = reader(heading_page());
    app.press("cp");
    app.press("pp"); // heading, then the prose under it
    let (start, end) = app.focus_span();
    assert_eq!((start.line, end.line), (3, 4));
}

#[test]
fn word_motion_still_walks_through_a_heading() {
    let mut app = reader(heading_page());
    app.press("cw");
    app.press_until_line("w", 2);
    let mut stops = vec![app.caret().cell];
    for _ in 0..3 {
        app.press("w");
        let caret = app.caret();
        if caret.line != 2 {
            break;
        }
        stops.push(caret.cell);
    }
    assert!(stops.len() > 1, "the heading was one stop, not several words: {stops:?}");
    let (start, end) = app.focus_span();
    assert_eq!(start.line, 2);
    assert!(
        end.cell < heading_page().pages[0][2].len() - 1,
        "word scope highlighted the whole heading"
    );
}

#[test]
fn line_motion_still_steps_through_a_wrapped_heading_line_by_line() {
    let mut app = reader(heading_page());
    app.press("ce");
    app.press_until_line("j", 4);
    app.press("j");
    app.assert_caret(0, 5, 0);
    app.press("j");
    app.assert_caret(0, 6, 0);
}

// ---- Equations --------------------------------------------------------

#[test]
fn sentence_motion_treats_an_equation_as_one_step() {
    let mut app = reader(equation_page());
    app.press("cs");
    app.press("ss"); // past both prose sentences
    let (start, end) = app.focus_span();
    assert_eq!((start.line, end.line), (2, 3), "the whole equation is one sentence");
    app.press("s");
    assert_eq!(app.caret().line, 4, "next s must leave the equation");
}

#[test]
fn a_stop_inside_an_equation_does_not_split_it() {
    let mut app = reader(equation_page());
    app.press("cs");
    app.press("ss");
    let (start, end) = app.focus_span();
    let last = equation_page().pages[0][3].len() - 1;
    assert_eq!((start.line, start.cell), (2, 0));
    assert_eq!((end.line, end.cell), (3, last));
}

#[test]
fn a_sentence_above_an_equation_does_not_run_into_it() {
    let mut app = reader(equation_page());
    app.press("cs");
    app.press("s");
    let (_, end) = app.focus_span();
    assert_eq!(end.line, 1, "sentence leaked into the equation");
}

#[test]
fn paragraph_motion_treats_an_equation_as_one_paragraph() {
    let mut app = reader(equation_page());
    app.press("cp");
    app.press("p");
    let (start, end) = app.focus_span();
    assert_eq!((start.line, end.line), (2, 3));
    app.press("p");
    app.assert_caret(0, 4, 0);
}

#[test]
fn word_motion_still_walks_through_an_equation() {
    let mut app = reader(equation_page());
    app.press("cw");
    app.press_until_line("w", 2);
    let mut stops = vec![app.caret().cell];
    for _ in 0..4 {
        app.press("w");
        let caret = app.caret();
        if caret.line != 2 {
            break;
        }
        stops.push(caret.cell);
    }
    assert!(stops.len() > 1, "the equation was one stop, not several words: {stops:?}");
}

#[test]
fn line_motion_steps_over_a_whole_equation_with_one_press() {
    let mut app = reader(equation_page());
    app.press("ce");
    app.press("jj");
    app.assert_caret(0, 2, 0);
    app.press("j");
    app.assert_caret(0, 4, 0);
    app.press("k");
    app.assert_caret(0, 2, 0);
}

#[test]
fn line_scope_spans_the_whole_equation() {
    let mut app = reader(equation_page());
    app.press("ce");
    app.press("jj");
    let (start, end) = app.focus_span();
    assert_eq!((start.line, start.cell), (2, 0));
    assert_eq!(end.line, 3, "span stopped short of the last row");
}

// ---- Tables and footnotes ---------------------------------------------

#[test]
fn word_motion_backwards_walks_back_through_a_table() {
    let mut app = with_table_page();
    app.press("cw");
    while !(2..=5).contains(&app.caret().line) {
        app.press("w");
    }
    let first = app.caret();
    app.press("w");
    let second = app.caret();
    assert!((2..=5).contains(&second.line) && second > first);
    app.press("b");
    assert_eq!(app.caret(), first, "`b` should step back one word, not out to the table start");
}

#[test]
fn word_scope_spans_only_a_word_inside_a_table() {
    let mut app = with_table_page();
    app.press("cw");
    while !(2..=5).contains(&app.caret().line) {
        app.press("w");
    }
    let (start, end) = app.focus_span();
    assert_eq!(start.line, end.line, "a word span crossed table rows");
    assert!(
        end.line < 5 || end.cell + 1 < app.text.line_cell_count(0, 5),
        "word scope covered the whole table"
    );
}

#[test]
fn next_line_treats_the_table_as_a_single_step() {
    let mut app = with_table_page();
    app.press("cw");
    while !(2..=5).contains(&app.caret().line) {
        app.press("e");
    }
    assert_eq!(app.caret().line, 2, "e should land on the table's first line");
    app.press("e");
    assert_eq!(app.caret().line, 6, "next e must leave the table");
}

#[test]
fn sentence_next_skips_a_footnote_block_entirely() {
    let mut app = with_footnote_page();
    app.press("cs");
    app.press("s"); // "Delta epsilon zeta."
    app.assert_caret(0, 1, 0);
    app.press("s");
    app.assert_caret(0, 3, 0);
}

#[test]
fn word_motion_can_still_step_into_a_footnote() {
    let mut app = with_footnote_page();
    app.press("cw");
    for _ in 0..20 {
        if app.caret().line == 2 {
            return;
        }
        app.press("w");
    }
    panic!("word motion never reached the footnote (line 2)");
}

#[test]
fn a_sentence_started_inside_a_footnote_still_expands_normally() {
    let mut app = with_footnote_page();
    app.press("ce");
    app.press("jj");
    app.assert_caret(0, 2, 0);
    app.press("cs");
    let (start, end) = app.focus_span();
    assert_eq!((start.line, end.line), (2, 2));
    assert_eq!(start.cell, 0);
}

// ---- Scope motions ----------------------------------------------------

#[test]
fn caret_next_word_skips_current_run_and_whitespace() {
    let mut app = with_text_pages(&["alpha beta-gamma"]);
    app.press("cc");
    app.press("w");
    app.assert_caret(0, 0, 6);
}

#[test]
fn caret_next_line_clamps_at_the_last_line() {
    let mut app = with_text_pages(&["only line"]);
    app.press("cc");
    app.press("e");
    app.assert_caret(0, 0, 0);
}

#[test]
fn caret_prev_word_uses_current_then_previous_run() {
    let mut app = with_text_pages(&["alpha beta"]);
    app.press("cc");
    app.press("8l");
    app.assert_caret(0, 0, 8);
    app.press("b");
    app.assert_caret(0, 0, 6);
    app.press("b");
    app.assert_caret(0, 0, 0);
}

#[test]
fn caret_word_motions_clamp_at_document_edges() {
    let mut app = with_text_pages(&["one"]);
    app.press("cc");
    app.press("b");
    app.assert_caret(0, 0, 0);
    app.press("w");
    app.assert_caret(0, 0, 0);
}

#[test]
fn word_motions_work_at_every_scope() {
    let mut app = with_text_pages(&["alpha beta gamma"]);
    app.press("cs");
    let (start, end) = app.focus_span();
    assert_eq!(start.cell, 0);
    assert!(end.cell > start.cell);
    app.press("w");
    assert_eq!(app.caret().cell, 6);
    assert_eq!(app.focus_span(), (start, end));
}

#[test]
fn sentence_and_paragraph_motions_work_at_every_scope() {
    for (enter, scope) in [("cc", Scope::Char), ("cw", Scope::Word), ("ce", Scope::Line)] {
        let mut app = with_text_pages(&["Alpha beta. Gamma delta."]);
        app.press(enter);
        let (before_start, before_end) = app.focus_span();
        let before_width = before_end.cell - before_start.cell;
        app.press("s");
        assert_eq!((app.state.mode, app.state.focus_scope), (Mode::Focus, scope));
        assert_eq!(app.caret().cell, 12, "from {enter}");
        let (start, end) = app.focus_span();
        assert_eq!(end.cell - start.cell, before_width, "`s` from {enter} resized the highlight");
    }
}

#[test]
fn scope_motions_take_counts() {
    let mut app = with_text_pages(&["Alpha beta. Gamma delta. Epsilon zeta."]);
    app.press("cw");
    app.press("2s");
    assert_eq!(app.caret().cell, 25);
}

#[test]
fn scope_motions_clamp_at_the_document_end() {
    let mut app = with_text_pages(&["Alpha beta. Gamma delta."]);
    app.press("cw");
    app.press("s");
    let last = app.caret();
    app.press("9s");
    assert_eq!(app.caret(), last);
}

#[test]
fn motion_keys_do_not_shadow_the_scope_chords() {
    let mut app = with_text_pages(&["Alpha beta. Gamma delta."]);
    app.press("cw");
    let at = app.caret();
    app.press("cs");
    assert_eq!(app.state.focus_scope, Scope::Sentence);
    assert_eq!(app.caret(), at, "`cs` must not move");
    app.press("s");
    assert_eq!(app.state.focus_scope, Scope::Sentence);
    assert_eq!(app.caret().cell, 12);
}

#[test]
fn sentence_next_crosses_pages() {
    let mut app = with_text_pages(&["One sentence.", "Second sentence."]);
    app.press("cs");
    assert_eq!(app.caret().page, 0);
    app.press("j");
    assert_eq!(app.caret().page, 1);
    app.press("k");
    assert_eq!(app.caret().page, 0);
    app.press("k");
    assert_eq!(app.caret().page, 0);
}

#[test]
fn paragraph_next_crosses_pages() {
    let mut app = with_text_pages(&["First page", "Second page"]);
    app.press("cp");
    assert_eq!(app.caret().page, 0);
    app.press("j");
    assert_eq!(app.caret().page, 1);
    app.press("k");
    assert_eq!(app.caret().page, 0);
    app.press("k");
    assert_eq!(app.caret().page, 0);
}

// ---- Visual mode ------------------------------------------------------

#[test]
fn visual_selection_covers_a_whole_table_in_one_step() {
    let mut app = with_table_page();
    app.press("ce");
    app.press("j"); // line 1, the prose above
    app.press("v");
    app.press("j"); // extend over the table
    let selection = app.visual_span();
    assert_eq!(selection.0.line, 1);
    assert_eq!(selection.1.line, 5, "selection stops short of the table end");
}

#[test]
fn visual_explicit_scope_overrides_the_inherited_one() {
    let mut app = with_text_pages(&["alpha beta"]);
    app.press("ve");
    assert_eq!(app.state.focus_scope, Scope::Line);
    let (start, end) = app.visual_span();
    assert_eq!(start.cell, 0);
    assert!(end.cell > 0, "line scope reaches the last cell");
}

#[test]
fn visual_motion_extends_by_the_active_scope() {
    let mut app = with_text_pages(&["alpha beta gamma"]);
    app.press("vw");
    let (_, end_before) = app.visual_span();
    assert_eq!(end_before.cell, 4, "\"alpha\"");
    app.press("l");
    let (start, end) = app.visual_span();
    assert_eq!(start.cell, 0, "the anchor stays put");
    assert_eq!(end.cell, 9, "now through \"beta\"");
}

#[test]
fn visual_counts_repeat_the_motion() {
    let mut app = with_text_pages(&["alpha beta gamma"]);
    app.press("vw");
    app.press("2l");
    let (_, end) = app.visual_span();
    assert_eq!(end.cell, 15, "through \"gamma\"");
}

#[test]
fn visual_swap_ends_does_not_change_the_span() {
    let mut app = with_text_pages(&["alpha beta gamma"]);
    app.press("vw");
    app.press("l");
    let before = app.visual_span();
    app.press("oo");
    assert_eq!(app.visual_span(), before, "`o` is a render no-op");
    assert!(app.caret() < app.state.visual.unwrap().anchor);
}

#[test]
fn visual_swap_then_motion_moves_the_other_end() {
    let mut app = with_text_pages(&["alpha beta gamma"]);
    app.press("vw");
    app.press("l");
    let (start_before, end_before) = app.visual_span();
    app.press("oo");
    app.press("l");
    let (start, end) = app.visual_span();
    assert!(start > start_before, "the front end moved");
    assert_eq!(end, end_before, "the back end stayed put");
}

#[test]
fn visual_scope_changes_the_active_end_without_swapping() {
    let mut app = with_text_pages(&["alpha beta gamma"]);
    app.press("vc");
    let head_before = app.caret();
    app.press("vw");
    assert_eq!(app.state.focus_scope, Scope::Word);
    assert_eq!(app.state.visual.unwrap().anchor_scope, Scope::Char);
    assert_eq!(app.caret(), head_before, "no swap");
}

#[test]
fn crossing_and_returning_restores_the_span() {
    let mut app = with_text_pages(&["alpha beta gamma delta"]);
    app.press("cw");
    app.press("ll");
    app.press("vw");
    let before = app.visual_span();
    app.press("hh");
    assert_ne!(app.visual_span(), before, "the head crossed over");
    app.press("ll");
    assert_eq!(app.visual_span(), before);
}

#[test]
fn visual_selection_spans_pages() {
    let mut app = with_text_pages(&["alpha beta", "gamma delta"]);
    app.press("vw");
    assert_eq!(app.visual_span().1.page, 0);
    app.press("3l");
    let (start, end) = app.visual_span();
    assert_eq!(start.page, 0);
    assert_eq!(end.page, 1, "the selection crosses the page boundary");
}

#[test]
fn a_from_visual_mode_keeps_the_selection_it_had() {
    let mut app = with_text_pages(&["alpha beta gamma"]);
    app.press("vw");
    app.press("w");
    let span = app.visual_span();
    let anchor = app.state.visual;
    app.press("a");
    assert_eq!(app.state.mode, Mode::Highlight);
    assert_eq!(app.visual_span(), span);
    assert_eq!(app.state.visual, anchor);
}

#[test]
fn visual_other_scope_changes_only_that_end() {
    let mut app = with_text_pages(&["alpha beta gamma"]);
    app.press("ve");
    let (_, end_before) = app.visual_span();
    app.press("ow");
    assert_eq!(app.state.focus_scope, Scope::Word);
    assert_eq!(app.state.visual.unwrap().anchor_scope, Scope::Line);
    assert_eq!(app.visual_span().1, end_before);
    assert!(app.status_text().contains("-- VISUAL (word/line) --"), "{}", app.status_text());
}
