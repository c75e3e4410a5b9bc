use syodep::caret::Scope;
use syodep::object_policy::{auto_skip_in_search, movement_unit, ObjectTraits};

const PLAIN: ObjectTraits = ObjectTraits {
    atomic: false,
    block: false,
    splits_paragraphs: false,
    one_sentence: false,
    list_item: false,
    footnote: false,
    caption: false,
};
const FOOTNOTE: ObjectTraits = ObjectTraits { atomic: false, block: true, footnote: true, caption: false, ..PLAIN };
const CAPTION: ObjectTraits = ObjectTraits { atomic: false, block: true, footnote: false, caption: true, ..PLAIN };
const CODE: ObjectTraits = ObjectTraits { atomic: false, block: true, footnote: false, caption: false, ..PLAIN };
const IMAGE: ObjectTraits = ObjectTraits { atomic: true, block: true, footnote: false, caption: false, ..PLAIN };
const TABLE: ObjectTraits = ObjectTraits { atomic: false, block: true, footnote: false, caption: false, ..PLAIN };

#[test]
fn footnote_is_a_block_except_at_sentence_scope() {
    assert!(!movement_unit(FOOTNOTE, Scope::Char));
    assert!(!movement_unit(FOOTNOTE, Scope::Word));
    assert!(!movement_unit(FOOTNOTE, Scope::Sentence));
    assert!(movement_unit(FOOTNOTE, Scope::Line));
    assert!(movement_unit(FOOTNOTE, Scope::Paragraph));
}

#[test]
fn footnote_is_auto_skipped_only_by_sentence_and_paragraph_search() {
    assert!(auto_skip_in_search(FOOTNOTE, Scope::Sentence));
    assert!(auto_skip_in_search(FOOTNOTE, Scope::Paragraph));
    assert!(!auto_skip_in_search(FOOTNOTE, Scope::Line));
    assert!(!auto_skip_in_search(TABLE, Scope::Sentence));
}

#[test]
fn caption_is_a_block_including_at_sentence_scope() {
    assert!(!movement_unit(CAPTION, Scope::Char));
    assert!(!movement_unit(CAPTION, Scope::Word));
    assert!(movement_unit(CAPTION, Scope::Sentence));
    assert!(movement_unit(CAPTION, Scope::Line));
    assert!(movement_unit(CAPTION, Scope::Paragraph));
}

#[test]
fn caption_is_auto_skipped_like_a_footnote_in_search() {
    assert!(auto_skip_in_search(CAPTION, Scope::Sentence));
    assert!(auto_skip_in_search(CAPTION, Scope::Paragraph));
    assert!(!auto_skip_in_search(CAPTION, Scope::Line));
}

#[test]
fn code_is_a_block_and_never_auto_skipped() {
    assert!(movement_unit(CODE, Scope::Sentence));
    assert!(movement_unit(CODE, Scope::Line));
    assert!(movement_unit(CODE, Scope::Paragraph));
    assert!(!auto_skip_in_search(CODE, Scope::Sentence));
    assert!(!auto_skip_in_search(CODE, Scope::Paragraph));
}

#[test]
fn images_are_atomic_and_blocks() {
    assert!(movement_unit(IMAGE, Scope::Word));
    assert!(movement_unit(IMAGE, Scope::Line));
    assert!(movement_unit(IMAGE, Scope::Sentence));
}

#[test]
fn nothing_is_a_unit_at_char_scope_or_skipped_by_word_search() {
    for kind in [FOOTNOTE, CAPTION, CODE, IMAGE, TABLE] {
        assert!(!movement_unit(kind, Scope::Char));
        assert!(!auto_skip_in_search(kind, Scope::Char));
        assert!(!auto_skip_in_search(kind, Scope::Word));
    }
    // A table is a block, not atomic: word motion walks into its cells.
    assert!(!movement_unit(TABLE, Scope::Word));
    assert!(movement_unit(TABLE, Scope::Line));
}
