use syodep::caret::{Caret, Cell, CellKind, LineMark, WordClass, WordMark};
use syodep::words::DocumentText;

fn line(text: &str) -> Vec<Cell> {
    text.chars()
        .map(|ch| Cell {
            kind: CellKind::Char(ch),
            synthetic: false,
        })
        .collect()
}

fn doc(pages: &[&[&str]]) -> DocumentText {
    DocumentText {
        pages: pages
            .iter()
            .map(|lines| lines.iter().map(|l| line(l)).collect())
            .collect(),
        objects: Vec::new(),
        paragraphs: Vec::new(),
    }
}

fn at(page: usize, line: usize, cell: usize) -> Caret {
    Caret { page, line, cell }
}

/// Every position `w` visits from the first cell of the document.
fn w_stops(text: &DocumentText) -> Vec<Caret> {
    let mut caret = at(0, 0, 0);
    let mut stops = vec![caret];
    while text.step_next_word_start(&mut caret) {
        stops.push(caret);
    }
    stops
}

#[test]
fn stepping_crosses_lines_and_skips_empty_pages() {
    let text = doc(&[&["ab", "c"], &[], &["d"]]);
    let mut caret = at(0, 0, 1);
    assert!(text.step_right(&mut caret));
    assert_eq!(caret, at(0, 1, 0));
    assert!(text.step_right(&mut caret));
    assert_eq!(caret, at(2, 0, 0));
    assert!(!text.step_right(&mut caret));
    assert_eq!(caret, at(2, 0, 0));
    assert!(text.step_left(&mut caret));
    assert_eq!(caret, at(0, 1, 0));
    assert!(text.step_left(&mut caret));
    assert_eq!(caret, at(0, 0, 1));
    let mut start = at(0, 0, 0);
    assert!(!text.step_left(&mut start));
}

#[test]
fn w_stops_at_each_word_and_punctuation_run() {
    let text = doc(&[&["one, two"]]);
    assert_eq!(w_stops(&text), vec![at(0, 0, 0), at(0, 0, 3), at(0, 0, 5)]);
}

#[test]
fn w_treats_numbers_compounds_and_suffixes_as_one_word() {
    let text = doc(&[&["a 3.14 state-of-the-art 45.5% b"]]);
    assert_eq!(
        w_stops(&text),
        vec![at(0, 0, 0), at(0, 0, 2), at(0, 0, 7), at(0, 0, 24), at(0, 0, 30)]
    );
}

#[test]
fn w_treats_an_abbreviation_as_one_word() {
    let text = doc(&[&["(e.g., x)"]]);
    assert_eq!(
        w_stops(&text),
        vec![at(0, 0, 0), at(0, 0, 1), at(0, 0, 5), at(0, 0, 7), at(0, 0, 8)]
    );
}

#[test]
fn w_treats_a_link_as_one_word() {
    let text = doc(&[&["see https://example.com/a?x=1. Next"]]);
    assert_eq!(
        w_stops(&text),
        vec![at(0, 0, 0), at(0, 0, 4), at(0, 0, 29), at(0, 0, 31)]
    );
}

#[test]
fn a_link_is_stitched_across_spaced_fragments() {
    let text = doc(&[&["at https://doi .org /10 .17632 now"]]);
    // Whichever fragment the caret is in, the whole address is the link.
    assert_eq!(text.link_at(at(0, 0, 3)), Some((3, 29)));
    assert_eq!(text.link_at(at(0, 0, 16)), Some((3, 29)));
    assert_eq!(text.link_at(at(0, 0, 25)), Some((3, 29)));
    assert!(text.is_inside_link(at(0, 0, 15)));
    assert!(!text.is_inside_link(at(0, 0, 0)));
    assert_eq!(text.link_at(at(0, 0, 31)), None);
}

#[test]
fn b_returns_to_word_starts() {
    let text = doc(&[&["one two", "three"]]);
    let mut caret = at(0, 1, 3);
    assert!(text.step_prev_word_start(&mut caret));
    assert_eq!(caret, at(0, 1, 0));
    assert!(text.step_prev_word_start(&mut caret));
    assert_eq!(caret, at(0, 0, 4));
    assert!(text.step_prev_word_start(&mut caret));
    assert_eq!(caret, at(0, 0, 0));
    assert!(!text.step_prev_word_start(&mut caret));
    assert_eq!(caret, at(0, 0, 0));
}

#[test]
fn words_never_continue_across_a_line_break() {
    let text = doc(&[&["ab", "cd"]]);
    assert!(!text.same_word_run(at(0, 0, 1), at(0, 1, 0)));
    assert!(text.same_word_run(at(0, 0, 0), at(0, 0, 1)));
    assert_eq!(text.word_run_end(at(0, 0, 0)), at(0, 0, 1));
    assert_eq!(text.word_run_start(at(0, 1, 1)), at(0, 1, 0));
}

#[test]
fn token_spans_are_whitespace_delimited() {
    let text = doc(&[&["  foo.bar  baz"]]);
    assert_eq!(text.token_span(at(0, 0, 4)), Some((2, 8)));
    assert_eq!(text.token_span(at(0, 0, 0)), None);
    assert_eq!(text.token_span(at(0, 0, 13)), Some((11, 13)));
    assert_eq!(text.token_span(at(0, 0, 40)), None);
}

#[test]
fn abbreviation_stops_end_a_sentence_only_before_a_capital() {
    let text = doc(&[&["see Fig. Then it", "see Fig. below the line"]]);
    assert_eq!(text.abbreviation_at(at(0, 0, 5)), Some((4, 7)));
    assert!(!text.is_abbreviation_stop(at(0, 0, 7)));
    assert!(text.is_abbreviation_stop(at(0, 1, 7)));
    // Eight cells are looked at; a page that ends sooner ends the sentence.
    let short = doc(&[&["see Fig. below"]]);
    assert!(!short.is_abbreviation_stop(at(0, 0, 7)));
    // A stop inside dotted initials never ends anything.
    let initials = doc(&[&["e.g. x"]]);
    assert!(initials.is_abbreviation_stop(at(0, 0, 1)));
}

#[test]
fn a_guessed_gap_inside_a_number_does_not_split_it() {
    let mut text = doc(&[&["9p4kxc2cvd .1 x"]]);
    text.pages[0][0][10].synthetic = true;
    assert!(text.same_word_run(at(0, 0, 9), at(0, 0, 10)));
    assert!(text.is_number_interior(at(0, 0, 11)));
    assert!(!text.is_number_interior_tight(at(0, 0, 11)));
}

#[test]
fn images_are_stops_of_their_own() {
    let mut text = doc(&[&["ab"]]);
    text.pages[0][0].push(Cell {
        kind: CellKind::Image,
        synthetic: false,
    });
    assert_eq!(text.word_class_at(at(0, 0, 2)), Some(WordClass::Image));
    assert_eq!(w_stops(&text), vec![at(0, 0, 0), at(0, 0, 2)]);
    assert_eq!(text.char_at(at(0, 0, 2)), None);
}

#[test]
fn line_marks_move_across_pages_with_content() {
    let text = doc(&[&["a", "b"], &[], &["c"]]);
    let mut mark = LineMark { page: 0, line: 1 };
    assert!(text.line_step_down(&mut mark));
    assert_eq!(mark, LineMark { page: 2, line: 0 });
    assert!(!text.line_step_down(&mut mark));
    assert!(text.line_step_up(&mut mark));
    assert_eq!(mark, LineMark { page: 0, line: 1 });
    assert!(text.line_step_up(&mut mark));
    assert!(!text.line_step_up(&mut mark));
    assert_eq!(mark, LineMark { page: 0, line: 0 });
}

#[test]
fn word_marks_cover_the_run_around_the_caret() {
    let text = doc(&[&["one well-known word"]]);
    let mark = text.word_mark_from_caret(at(0, 0, 7));
    assert_eq!(
        mark,
        WordMark {
            page: 0,
            line: 0,
            start_cell: 4,
            end_cell: 13
        }
    );
    assert_eq!(DocumentText::word_mark_caret(mark), at(0, 0, 4));
}

#[test]
fn well_formed_text_is_told_from_text_the_steps_cannot_read() {
    assert!(doc(&[&["Alpha beta.", "see . here"]]).is_well_formed());
    assert!(!doc(&[&["Alpha beta.", " .hidden"]]).is_well_formed());
    assert!(!doc(&[&[" /path"]]).is_well_formed());
    let mut text = doc(&[&["One line."]]);
    text.paragraphs = vec![vec![(0, 1)]];
    assert!(!text.is_well_formed());
    text.paragraphs = vec![vec![(0, 0)], vec![(0, 0)]];
    assert!(!text.is_well_formed());
    text.paragraphs = vec![vec![(0, 0)]];
    assert!(text.is_well_formed());
}
