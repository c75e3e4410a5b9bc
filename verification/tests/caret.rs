use syodep::caret::{
    continues_word_run, is_attached_number_suffix, is_dotted_initials, is_inside_dotted_token,
    is_inside_hyphenated_word, is_inside_number, is_inside_scientific_exponent,
    is_known_abbreviation, is_line_final_colon, is_sentence_terminator, is_sentence_trailer,
    is_word_target, line_ends_with_colon, link_span, object_index_at, opens_a_sentence,
    split_segments_at_objects, word_class, Caret, Cell, CellKind, ContentObject, WordClass,
};
use syodep::object_policy::ObjectTraits;

fn char_cell_at(c: char, _x0: f32, _x1: f32) -> Cell {
    Cell {
        kind: CellKind::Char(c),
        synthetic: false,
    }
}

fn image_cell() -> Cell {
    Cell {
        kind: CellKind::Image,
        synthetic: false,
    }
}

/// The cells of one content line of `text`, one per character.
fn text_cells(text: &str) -> Vec<Cell> {
    text.chars()
        .map(|ch| Cell {
            kind: CellKind::Char(ch),
            synthetic: false,
        })
        .collect()
}

const PLAIN: ObjectTraits = ObjectTraits {
    atomic: false,
    block: false,
    splits_paragraphs: false,
    one_sentence: false,
    list_item: false,
    footnote: false,
    caption: false,
};

fn object(start_line: usize, end_line: usize) -> ContentObject {
    ContentObject {
        start_line,
        end_line,
        kind: PLAIN,
    }
}

#[test]
fn caret_ordering_is_document_order() {
    let at = |page, line, cell| Caret { page, line, cell };
    // Page dominates line, which dominates cell.
    assert!(at(0, 9, 9) < at(1, 0, 0));
    assert!(at(0, 0, 9) < at(0, 1, 0));
    assert!(at(0, 0, 0) < at(0, 0, 1));
    // min/max pick the document-order ends regardless of argument order.
    let (a, b) = (at(2, 1, 3), at(0, 5, 0));
    assert_eq!(a.min(b), at(0, 5, 0));
    assert_eq!(a.max(b), at(2, 1, 3));
}

#[test]
fn word_class_identifies_word_cells() {
    assert_eq!(word_class(&char_cell_at('a', 0.0, 1.0)), WordClass::Word);
    assert_eq!(word_class(&char_cell_at('9', 0.0, 1.0)), WordClass::Word);
    assert_eq!(word_class(&char_cell_at('_', 0.0, 1.0)), WordClass::Word);
}

#[test]
fn word_class_identifies_skips_and_single_stops() {
    assert_eq!(
        word_class(&char_cell_at(' ', 0.0, 1.0)),
        WordClass::Whitespace
    );
    assert_eq!(
        word_class(&char_cell_at('-', 0.0, 1.0)),
        WordClass::Punctuation
    );
    assert_eq!(word_class(&image_cell()), WordClass::Image);

    assert!(!is_word_target(WordClass::Whitespace));
    assert!(is_word_target(WordClass::Word));
    assert!(is_word_target(WordClass::Punctuation));
    assert!(is_word_target(WordClass::Image));
}

#[test]
fn word_runs_respect_class_and_boundaries() {
    assert!(continues_word_run(WordClass::Word, WordClass::Word, true));
    assert!(continues_word_run(
        WordClass::Punctuation,
        WordClass::Punctuation,
        true
    ));
    assert!(!continues_word_run(
        WordClass::Word,
        WordClass::Punctuation,
        true
    ));
    assert!(!continues_word_run(WordClass::Word, WordClass::Word, false));
    assert!(!continues_word_run(
        WordClass::Image,
        WordClass::Image,
        true
    ));
    assert!(!continues_word_run(
        WordClass::Whitespace,
        WordClass::Whitespace,
        true
    ));
}

#[test]
fn sentence_classifiers() {
    assert!(is_sentence_terminator('.'));
    assert!(is_sentence_terminator('!'));
    assert!(is_sentence_terminator('?'));
    assert!(!is_sentence_terminator(','));
    assert!(is_sentence_trailer('"'));
    assert!(is_sentence_trailer(')'));
    assert!(!is_sentence_trailer('a'));
}

#[test]
fn line_final_colon_at_eol_and_with_trailing_spaces() {
    let cells = text_cells("lead-in:");
    assert!(is_line_final_colon(&cells, cells.len() - 1));
    assert!(line_ends_with_colon(&cells));

    let cells = text_cells("lead-in:  ");
    assert!(is_line_final_colon(&cells, 7));
    assert!(!is_line_final_colon(&cells, 8)); // a trailing space
    assert!(line_ends_with_colon(&cells));
}

#[test]
fn mid_line_colon_is_not_line_final() {
    let cells = text_cells("Note: more.");
    assert!(!is_line_final_colon(&cells, 4));
    assert!(!line_ends_with_colon(&cells));
}

#[test]
fn colon_followed_by_an_image_is_not_line_final() {
    let mut cells = text_cells("lead-in:");
    cells.push(image_cell());
    assert!(!is_line_final_colon(&cells, 7));
    assert!(!line_ends_with_colon(&cells));
}

#[test]
fn dotted_initials_are_recognised_by_shape() {
    for token in ["e.g.", "i.e.", "U.S.", "Ph.D.", "a.k.a.", "e.g"] {
        assert!(is_dotted_initials(token), "{token}");
    }
}

#[test]
fn ordinary_words_are_not_dotted_initials() {
    // One stop after a whole word is not a run of initials, and a decimal
    // is not one either.
    for token in ["end.", "etc.", "3.14", "Fig.", "word", "."] {
        assert!(!is_dotted_initials(token), "{token}");
    }
}

#[test]
fn known_abbreviations_are_matched_without_their_stop_and_by_any_case() {
    // Tokens are whitespace-delimited, so `et al.` arrives as two of them
    // and it is `al.` that carries the stop.
    for token in ["etc.", "Fig.", "fig", "AL.", "vol.", "Dr.", "Sept."] {
        assert!(is_known_abbreviation(token), "{token}");
    }
    for token in ["end", "the", "database", ""] {
        assert!(!is_known_abbreviation(token), "{token}");
    }
}

#[test]
fn a_capital_after_the_stop_opens_a_sentence() {
    assert!(opens_a_sentence(" The next one"));
    assert!(opens_a_sentence(" (Then again"));
    // A lower-case word or a figure continues what came before.
    assert!(!opens_a_sentence(" and then"));
    assert!(!opens_a_sentence(" 3 items"));
    assert!(!opens_a_sentence(""));
}

#[test]
fn continuing_punctuation_before_the_capital_does_not() {
    // "(e.g., Smith 2020)" — the comma says the text runs on, whatever the
    // capital after it suggests.
    assert!(!opens_a_sentence(", Smith 2020)"));
    assert!(!opens_a_sentence("; Then again"));
    assert!(!opens_a_sentence(": Then again"));
    // It has to come first: a capital reached before any such mark still
    // opens a sentence.
    assert!(opens_a_sentence(" Then again, more"));
}

#[test]
fn a_separator_between_digits_is_inside_a_number() {
    assert!(is_inside_number(Some('3'), '.', Some('1')));
    assert!(is_inside_number(Some('1'), ',', Some('2')));
}

#[test]
fn a_separator_without_digits_on_both_sides_is_not() {
    // "costs 3." — nothing follows, so the stop still ends the sentence.
    assert!(!is_inside_number(Some('3'), '.', Some(' ')));
    assert!(!is_inside_number(Some('3'), '.', None));
    // "etc. 5" — a full stop that merely happens to precede a figure
    // (with a space between; the adjacent-char case `c.5` is a dotted
    // token, not a number).
    assert!(!is_inside_number(Some('c'), '.', Some('5')));
    // Only a decimal point or a grouping comma joins digits.
    assert!(!is_inside_number(Some('3'), '-', Some('1')));
    assert!(!is_inside_number(Some('3'), '!', Some('1')));
}

#[test]
fn a_dot_between_alphanumeric_sides_is_inside_a_dotted_token() {
    assert!(is_inside_dotted_token(Some('I'), '.', Some('0'))); // VII.0
    assert!(is_inside_dotted_token(Some('e'), '.', Some('t'))); // file.txt
    assert!(is_inside_dotted_token(Some('a'), '.', Some('b'))); // a.b.c
    assert!(is_inside_dotted_token(Some('3'), '.', Some('1'))); // 3.14
    assert!(is_inside_dotted_token(Some('_'), '.', Some('x')));
}

#[test]
fn a_dot_without_alphanumeric_sides_is_not_a_dotted_token() {
    assert!(!is_inside_dotted_token(Some('3'), '.', Some(' ')));
    assert!(!is_inside_dotted_token(Some('3'), '.', None));
    assert!(!is_inside_dotted_token(Some(' '), '.', Some('5')));
    assert!(!is_inside_dotted_token(Some('c'), ',', Some('5')));
}

/// The link `link_span` finds in `token`, for readable assertions.
fn link_of(token: &str) -> Option<String> {
    let chars: Vec<char> = token.chars().collect();
    link_span(token).map(|(lo, hi)| chars[lo..=hi].iter().collect())
}

#[test]
fn link_span_finds_a_url_inside_the_prose_around_it() {
    assert_eq!(
        link_of("https://example.com/a?x=1").as_deref(),
        Some("https://example.com/a?x=1")
    );
    // Trailing sentence punctuation is not part of the address.
    assert_eq!(
        link_of("https://example.com.").as_deref(),
        Some("https://example.com")
    );
    assert_eq!(
        link_of("(https://example.com/a),").as_deref(),
        Some("https://example.com/a")
    );
    // ...but a bracket the link itself opened is.
    assert_eq!(
        link_of("https://x.org/wiki/Glob_(pattern)").as_deref(),
        Some("https://x.org/wiki/Glob_(pattern)")
    );
    // Scheme-only and host forms.
    assert_eq!(
        link_of("mailto:jane@example.com").as_deref(),
        Some("mailto:jane@example.com")
    );
    assert_eq!(
        link_of("www.example.com").as_deref(),
        Some("www.example.com")
    );
    assert_eq!(
        link_of("doi.org/10.1000/182").as_deref(),
        Some("doi.org/10.1000/182")
    );
    assert_eq!(
        link_of("jane.doe@example.com").as_deref(),
        Some("jane.doe@example.com")
    );
}

#[test]
fn link_span_leaves_ordinary_tokens_alone() {
    // A slash between two words is not a path.
    assert_eq!(link_of("and/or"), None);
    assert_eq!(link_of("km/h"), None);
    assert_eq!(link_of("TCP/IP"), None);
    // A bare host is not recognised: extraction that drops a space makes
    // ordinary prose look exactly like one.
    assert_eq!(link_of("sentence.Next"), None);
    assert_eq!(link_of("example.com"), None);
    // Abbreviations and figures keep out of it.
    assert_eq!(link_of("e.g."), None);
    assert_eq!(link_of("1,234.56"), None);
    assert_eq!(link_of("10.1000/182"), None);
    // Nothing left after trimming.
    assert_eq!(link_of("(),"), None);
    assert_eq!(link_of(""), None);
}

#[test]
fn a_signed_exponent_needs_a_marker_and_a_digit_behind_it() {
    // "2.3E+5" and "1.5e-10".
    assert!(is_inside_scientific_exponent(
        Some('3'),
        Some('E'),
        '+',
        Some('5')
    ));
    assert!(is_inside_scientific_exponent(
        Some('5'),
        Some('e'),
        '-',
        Some('1')
    ));
    // The Unicode minus a typesetter may have used instead.
    assert!(is_inside_scientific_exponent(
        Some('5'),
        Some('e'),
        '\u{2212}',
        Some('1')
    ));
    // "cache+1": an identifier that merely ends in `e`.
    assert!(!is_inside_scientific_exponent(
        Some('h'),
        Some('e'),
        '+',
        Some('1')
    ));
    // "3.5+1": no exponent marker at all.
    assert!(!is_inside_scientific_exponent(
        Some('.'),
        Some('5'),
        '+',
        Some('1')
    ));
    // "2.3E+x": the exponent has to be a figure.
    assert!(!is_inside_scientific_exponent(
        Some('3'),
        Some('E'),
        '+',
        Some('x')
    ));
}

#[test]
fn a_proportion_sign_after_a_digit_belongs_to_the_number() {
    assert!(is_attached_number_suffix(Some('5'), '%'));
    assert!(is_attached_number_suffix(Some('0'), '‰'));
    // "the % sign" and "45.5 %": nothing to attach to.
    assert!(!is_attached_number_suffix(Some(' '), '%'));
    assert!(!is_attached_number_suffix(None, '%'));
    // A unit is not a suffix of this kind.
    assert!(!is_attached_number_suffix(Some('5'), '°'));
}

#[test]
fn a_hyphen_between_word_characters_is_inside_a_compound() {
    assert!(is_inside_hyphenated_word(Some('l'), '-', Some('k')));
    // Letters and digits both count: "COVID-19", "3-D".
    assert!(is_inside_hyphenated_word(Some('D'), '-', Some('1')));
    assert!(is_inside_hyphenated_word(Some('3'), '-', Some('D')));
    // The typographic hyphens join too, including the soft one a PDF can
    // carry where a word was set to break.
    assert!(is_inside_hyphenated_word(Some('l'), '\u{2010}', Some('k')));
    assert!(is_inside_hyphenated_word(Some('l'), '\u{2011}', Some('k')));
    assert!(is_inside_hyphenated_word(Some('l'), '\u{00ad}', Some('k')));
}

#[test]
fn a_hyphen_without_word_characters_on_both_sides_is_not() {
    // "one - two" and "well- known": a dash standing on its own.
    assert!(!is_inside_hyphenated_word(Some(' '), '-', Some('t')));
    assert!(!is_inside_hyphenated_word(Some('l'), '-', Some(' ')));
    assert!(!is_inside_hyphenated_word(Some('l'), '-', None));
    // "one--two": neither hyphen has a word character on both sides.
    assert!(!is_inside_hyphenated_word(Some('e'), '-', Some('-')));
    // Dashes punctuate rather than join, however tightly they are set.
    assert!(!is_inside_hyphenated_word(Some('e'), '\u{2013}', Some('t')));
    assert!(!is_inside_hyphenated_word(Some('e'), '\u{2014}', Some('t')));
}

#[test]
fn object_index_at_finds_the_containing_object() {
    let objects = [object(2, 5), object(8, 8)];
    assert_eq!(object_index_at(&objects, 1), None);
    assert_eq!(object_index_at(&objects, 2), Some(0));
    assert_eq!(object_index_at(&objects, 4), Some(0));
    assert_eq!(object_index_at(&objects, 5), Some(0));
    assert_eq!(object_index_at(&objects, 6), None);
    assert_eq!(object_index_at(&objects, 8), Some(1));
    assert_eq!(object_index_at(&[], 0), None);
}

#[test]
fn split_segments_cuts_a_paragraph_that_straddles_an_object() {
    // One paragraph swallowing a figure becomes prose / figure / prose.
    let segments = [(0, 9)];
    assert_eq!(
        split_segments_at_objects(&segments, &[object(4, 6)]),
        vec![(0, 3), (4, 6), (7, 9)]
    );
}

#[test]
fn split_segments_handles_an_object_at_either_edge() {
    assert_eq!(
        split_segments_at_objects(&[(0, 5)], &[object(0, 2)]),
        vec![(0, 2), (3, 5)]
    );
    assert_eq!(
        split_segments_at_objects(&[(0, 5)], &[object(3, 5)]),
        vec![(0, 2), (3, 5)]
    );
}

#[test]
fn split_segments_leaves_object_free_pages_untouched() {
    let segments = [(0, 3), (5, 9)];
    assert_eq!(split_segments_at_objects(&segments, &[]), segments.to_vec());
    // An object that is already its own segment is preserved as-is.
    assert_eq!(
        split_segments_at_objects(&segments, &[object(5, 9)]),
        segments.to_vec()
    );
}


#[test]
fn split_segments_replaces_each_segment_in_place() {
    // Two paragraphs, each holding an object: every segment turns into its
    // own pieces, in order, and the objects come out on their own.
    let segments = [(0, 5), (6, 12)];
    assert_eq!(
        split_segments_at_objects(&segments, &[object(2, 3), object(8, 8), object(11, 12)]),
        vec![(0, 1), (2, 3), (4, 5), (6, 7), (8, 8), (9, 10), (11, 12)]
    );
}
