//! Which structural objects are single steps for motion, and which the
//! sentence and paragraph search passes over.
//!
//! The text extraction reports what kind of object each structural block is;
//! motion reads only a few facts of a kind, which [`ObjectTraits`] holds.
//! Whether such an object is one step at a given [`Scope`], and whether
//! sentence and paragraph search skips it, is decided here, in one place.

use vstd::prelude::*;

use crate::caret::Scope;

verus! {

/// What caret motion reads of a structural object's kind.
#[derive(Debug, Clone, Copy, PartialEq, Eq, Structural)]
pub struct ObjectTraits {
    /// One stop for word motion, like a table or an image.
    pub atomic: bool,
    /// One stop for line, sentence and paragraph motion.
    pub block: bool,
    /// A paragraph of its own: the paragraphs around it are cut at its edges.
    pub splits_paragraphs: bool,
    /// A heading or a display equation: exactly one sentence, whatever
    /// punctuation it holds.
    pub one_sentence: bool,
    /// An item of a list, whose first line opens with the item's marker.
    pub list_item: bool,
    /// A footnote: walkable sentence by sentence once the caret is inside,
    /// passed over by the body's sentence and paragraph search.
    pub footnote: bool,
    /// A caption of a figure or a table.
    pub caption: bool,
}

/// Whether an object of kind `kind` is one atomic step at `scope`.
pub open spec fn is_movement_unit(kind: ObjectTraits, scope: Scope) -> bool {
    match scope {
        Scope::Char => false,
        Scope::Word => kind.atomic,
        Scope::Sentence => kind.block && !kind.footnote,
        Scope::Line | Scope::Paragraph => kind.block,
    }
}

/// Whether sentence and paragraph search treat an object of kind `kind` as
/// invisible at `scope`.
pub open spec fn is_skipped_in_search(kind: ObjectTraits, scope: Scope) -> bool {
    match scope {
        Scope::Sentence | Scope::Paragraph => kind.footnote || kind.caption,
        Scope::Char | Scope::Word | Scope::Line => false,
    }
}

/// Whether `kind` is one atomic step at `scope`.
///
/// Char scope has no units. Word scope steps over atomic objects; line and
/// paragraph scope over blocks; sentence scope over blocks except footnotes,
/// which stay walkable sentence by sentence once the caret is inside. Captions
/// are blocks at sentence scope too, though sentence search skips them.
pub fn movement_unit(kind: ObjectTraits, scope: Scope) -> (r: bool)
    ensures
        r == is_movement_unit(kind, scope),
{
    match scope {
        Scope::Char => false,
        Scope::Word => kind.atomic,
        Scope::Sentence => kind.block && !kind.footnote,
        Scope::Line | Scope::Paragraph => kind.block,
    }
}

/// Whether sentence and paragraph search should treat `kind` as invisible.
///
/// This does not follow from [`movement_unit`]: a footnote is a block at line
/// scope but costs the body's `s`/`p` search no stops, and a caption is
/// skipped the same way while still being a sentence step once the caret is
/// on it. Char, word and line search never skip anything.
pub fn auto_skip_in_search(kind: ObjectTraits, scope: Scope) -> (r: bool)
    ensures
        r == is_skipped_in_search(kind, scope),
{
    match scope {
        Scope::Sentence | Scope::Paragraph => kind.footnote || kind.caption,
        Scope::Char | Scope::Word | Scope::Line => false,
    }
}

} // verus!
