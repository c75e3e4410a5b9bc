use syodep::caret::{Caret, Cell, CellKind, ContentObject, SentenceMark};
use syodep::object_policy::ObjectTraits;
use syodep::words::DocumentText;

fn line(text: &str) -> Vec<Cell> {
    text.chars()
        .map(|ch| Cell {
            kind: CellKind::Char(ch),
            synthetic: false,
        })
        .collect()
}

fn doc(pages: &[&[&str]]) -> DocumentText {
    DocumentText {
        pages: pages
            .iter()
            .map(|lines| lines.iter().map(|l| line(l)).collect())
            .collect(),
        objects: Vec::new(),
        paragraphs: Vec::new(),
    }
}

fn at(page: usize, line: usize, cell: usize) -> Caret {
    Caret { page, line, cell }
}

const PLAIN: ObjectTraits = ObjectTraits {
    atomic: false,
    block: false,
    splits_paragraphs: false,
    one_sentence: false,
    list_item: false,
    footnote: false,
    caption: false,
};

fn object(start_line: usize, end_line: usize) -> ContentObject {
    ContentObject {
        start_line,
        end_line,
        kind: PLAIN,
    }
}

/// The cells of line 0 of page 0 after which a sentence ends.
fn boundaries(text: &DocumentText) -> Vec<usize> {
    (0..text.pages[0][0].len())
        .filter(|&i| text.sentence_boundary_after(at(0, 0, i)))
        .collect()
}

#[test]
fn terminators_end_sentences() {
    let text = doc(&[&["One. Two! Three?"]]);
    assert_eq!(boundaries(&text), vec![3, 8, 15]);
}

#[test]
fn a_group_of_terminators_and_trailers_ends_at_its_last_cell() {
    let text = doc(&[&["He said \"Hi.\" Then?!"]]);
    assert_eq!(boundaries(&text), vec![12, 19]);
    // A lone closing bracket is no boundary.
    let plain = doc(&[&["a (b) c"]]);
    assert_eq!(boundaries(&plain), Vec::<usize>::new());
}

#[test]
fn numbers_abbreviations_and_links_do_not_end_sentences() {
    let text = doc(&[&["It costs 3.14 today. Next"]]);
    assert_eq!(boundaries(&text), vec![19]);
    let abbr = doc(&[&["see e.g. the cat. Next"]]);
    assert_eq!(boundaries(&abbr), vec![16]);
    let link = doc(&[&["at example.com/a.html now. Next"]]);
    assert_eq!(boundaries(&link), vec![25]);
}

#[test]
fn a_colon_ending_its_line_ends_a_sentence() {
    let text = doc(&[&["A lead-in:  ", "Continued here."]]);
    assert!(text.sentence_boundary_after(at(0, 0, 9)));
    let mid = doc(&[&["Note: more."]]);
    assert!(!mid.sentence_boundary_after(at(0, 0, 4)));
}

#[test]
fn headings_and_list_markers_hold_no_boundary() {
    let mut text = doc(&[&["3.1. Methods", "1. First point. Second"]]);
    text.objects = vec![vec![
        ContentObject {
            kind: ObjectTraits { one_sentence: true, block: true, ..PLAIN },
            ..object(0, 0)
        },
        ContentObject {
            kind: ObjectTraits { list_item: true, block: true, ..PLAIN },
            ..object(1, 1)
        },
    ]];
    assert!(!text.sentence_boundary_after(at(0, 0, 3)));
    assert!(text.in_list_marker(at(0, 1, 1)));
    assert!(!text.sentence_boundary_after(at(0, 1, 1)));
    assert!(text.sentence_boundary_after(at(0, 1, 14)));
}

#[test]
fn sentences_expand_to_their_edges() {
    let text = doc(&[&["One two. Three four. Five"]]);
    assert_eq!(text.sentence_run_end(at(0, 0, 10)), at(0, 0, 19));
    assert_eq!(text.sentence_run_start(at(0, 0, 10)), at(0, 0, 9));
    assert_eq!(
        text.sentence_mark_from_caret(at(0, 0, 0)),
        SentenceMark {
            page: 0,
            start_line: 0,
            start_cell: 0,
            end_line: 0,
            end_cell: 7
        }
    );
}

#[test]
fn a_sentence_stops_at_the_edge_of_a_region() {
    let mut text = doc(&[&["Prose without a stop", "| a | b |", "more prose."]]);
    text.objects = vec![vec![object(1, 1)]];
    assert_eq!(text.sentence_run_end(at(0, 0, 0)), at(0, 0, 19));
    assert!(!text.same_region(at(0, 0, 0), at(0, 1, 0)));
}

#[test]
fn sentence_motion_walks_sentences_and_crosses_pages() {
    let text = doc(&[&["One. Two."], &[], &["  Three."]]);
    let mut mark = text.sentence_mark_from_caret(at(0, 0, 0));
    assert!(text.sentence_step_next(&mut mark));
    assert_eq!((mark.page, mark.start_cell, mark.end_cell), (0, 5, 8));
    assert!(text.sentence_step_next(&mut mark));
    assert_eq!((mark.page, mark.start_cell, mark.end_cell), (2, 2, 7));
    assert!(!text.sentence_step_next(&mut mark));
    assert!(text.sentence_step_prev(&mut mark));
    assert_eq!((mark.page, mark.start_cell, mark.end_cell), (0, 5, 8));
    assert!(text.sentence_step_prev(&mut mark));
    assert_eq!((mark.page, mark.start_cell), (0, 0));
    assert!(!text.sentence_step_prev(&mut mark));
}

#[test]
fn sentence_search_passes_over_footnotes() {
    let mut text = doc(&[&["Body one.", "1 A note.", "Body two."]]);
    text.objects = vec![vec![ContentObject {
        kind: ObjectTraits { footnote: true, block: true, ..PLAIN },
        ..object(1, 1)
    }]];
    assert_eq!(text.step_next_sentence_start(at(0, 0, 0)), Some(at(0, 2, 0)));
    assert_eq!(text.first_sentence_start_on_page(0), Some(at(0, 0, 0)));
    assert_eq!(text.step_prev_sentence_start(at(0, 2, 0)), Some(at(0, 0, 0)));
}
