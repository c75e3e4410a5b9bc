//! Caret navigation: a Vim-like cursor that moves through a document's
//! content (text characters and images) independently of scrolling.
//!
//! The caret is *modal* — see [`Mode`] for the four modes and what `hjkl`
//! does in each. What a step of `hjkl` covers within focus, visual or
//! highlight mode is the [`Scope`] — a character, word, line, sentence or
//! paragraph — not a separate mode. Each image is a single caret stop, so the
//! caret traverses text and images uniformly.
//!
//! This module owns the pieces that are pure: the position types, the
//! movement direction, the word classes, and the character and token
//! classifiers that word, sentence and link detection are built from.

use vstd::prelude::*;
use vstd::string::StringExecFns;

use crate::object_policy::ObjectTraits;
use crate::text::{
    char_alphabetic, char_alphanumeric, char_numeric, char_uppercase, is_alphabetic,
    is_alphanumeric, is_numeric, is_uppercase, is_whitespace, lowercase_chars, owned,
    spec_is_whitespace, str_chars, str_eq, string_of, sub_chars, to_lowercase, chars_eq,
};

verus! {

/// Whether `hjkl` scroll the page, move a focus highlight, grow a selection, or
/// shape a highlight.
///
/// There are exactly four modes. Granularity is *not* a mode: [`Mode::Focus`],
/// [`Mode::Visual`] and [`Mode::Highlight`] all carry a [`Scope`], so "word
/// focus" and "line focus" are the same mode holding a different scope.
#[derive(Debug, Clone, Copy, PartialEq, Eq, Structural, Default)]
pub enum Mode {
    /// `hjkl` scroll the page.
    #[default]
    Normal,
    /// Focus mode: one position is highlighted at the active [`Scope`] and
    /// `hjkl`/arrows move it by one unit of that scope; the view follows it.
    Focus,
    /// Visual mode: a two-ended selection. `hjkl`/arrows grow it by one unit of
    /// the active end's [`Scope`]; `o` swaps which end moves.
    Visual,
    /// Highlight mode: a selection being turned into a highlight. Every motion
    /// is visual mode's — a pending highlight *is* a selection, drawn in the
    /// highlight colour — plus keys to keep it or throw it away.
    Highlight,
}

/// A granularity that a position moves and snaps by.
///
/// Focus mode carries one; visual mode carries one *per end*, so a selection
/// can be line-granular at one edge and word-granular at the other (`ve` then
/// `ow`).
#[derive(Debug, Clone, Copy, PartialEq, Eq, Structural, Default)]
pub enum Scope {
    #[default]
    Char,
    Word,
    Line,
    Sentence,
    Paragraph,
}

/// The lower-case name of a scope.
pub open spec fn scope_name(s: Scope) -> Seq<char> {
    match s {
        Scope::Char => "char"@,
        Scope::Word => "word"@,
        Scope::Line => "line"@,
        Scope::Sentence => "sentence"@,
        Scope::Paragraph => "paragraph"@,
    }
}

impl Scope {
    /// Lower-case name for the status line.
    pub fn name(self) -> (r: &'static str)
        ensures
            r@ == scope_name(self),
    {
        match self {
            Scope::Char => "char",
            Scope::Word => "word",
            Scope::Line => "line",
            Scope::Sentence => "sentence",
            Scope::Paragraph => "paragraph",
        }
    }
}

/// The anchored end of a visual selection — the half that stays put.
///
/// The *moving* end is not stored here: it is the focus position and focus
/// scope. There is exactly one "where you are", and visual mode adds a second
/// endpoint rather than a second position. `o` exchanges this end with the
/// focus position, scopes included, so the invariant is simply *the focus
/// position is the end that moves*.
#[derive(Debug, Clone, Copy, PartialEq, Eq, Structural)]
pub struct VisualAnchor {
    pub anchor: Caret,
    pub anchor_scope: Scope,
    /// The mode to restore when visual mode is left.
    pub return_mode: Mode,
}

/// A visual-mode selection: two positions, each with its own granularity.
///
/// This is a read-only view assembled from the focus position (the head) and
/// the stored [`VisualAnchor`]. The rendered selection runs from the outer
/// edge of the earlier snapped end to the outer edge of the later one, so the
/// ends crossing needs no special case and `o` never changes what is drawn.
#[derive(Debug, Clone, Copy, PartialEq, Eq, Structural)]
pub struct VisualSelection {
    pub anchor: Caret,
    pub anchor_scope: Scope,
    pub head: Caret,
    pub head_scope: Scope,
    /// The mode to restore when visual mode is left with `<Esc>`.
    pub return_mode: Mode,
}

/// A highlight being placed, holding everything needed to undo entering
/// [`Mode::Highlight`].
///
/// Discarding restores all four positional fields, which is the whole
/// operation: entering highlight mode only ever *adds* an anchor (when coming
/// from focus mode) and never moves the position.
#[derive(Debug, Clone, PartialEq)]
pub struct PendingHighlight {
    /// [`Mode::Focus`] or [`Mode::Visual`]: the mode `a` was pressed in.
    pub return_mode: Mode,
    pub return_focus: Caret,
    pub return_scope: Scope,
    /// The anchor as it was, `None` when entering from focus mode (where the
    /// second end is synthesised on entry and must disappear again).
    pub return_visual: Option<VisualAnchor>,
    /// `#rrggbb`, captured on entry so a config reload mid-highlight cannot
    /// change the colour of a highlight already on screen.
    pub color: String,
}

/// A word-focus position: the run of cells `start_cell..=end_cell` within a line
/// within a page. All indices are zero-based and only meaningful against the
/// document the mark belongs to.
#[derive(Debug, Clone, Copy, PartialEq, Eq, Structural)]
pub struct WordMark {
    pub page: usize,
    pub line: usize,
    pub start_cell: usize,
    pub end_cell: usize,
}

/// A sentence-focus position: the run of cells from `[start_line, start_cell]`
/// to `[end_line, end_cell]` (inclusive) within a single page. Unlike a
/// [`WordMark`] a sentence may span several lines, but never crosses a page.
#[derive(Debug, Clone, Copy, PartialEq, Eq, Structural)]
pub struct SentenceMark {
    pub page: usize,
    pub start_line: usize,
    pub start_cell: usize,
    pub end_line: usize,
    pub end_cell: usize,
}

/// A paragraph-focus position: the inclusive run of lines `start_line..=end_line`
/// within a single page.
#[derive(Debug, Clone, Copy, PartialEq, Eq, Structural)]
pub struct ParagraphMark {
    pub page: usize,
    pub start_line: usize,
    pub end_line: usize,
}

/// A line-focus position: a line within a page. Both indices are zero-based and
/// only meaningful against the document the mark belongs to.
#[derive(Debug, Clone, Copy, PartialEq, Eq, Structural)]
pub struct LineMark {
    pub page: usize,
    pub line: usize,
}

/// A caret position: a cell within a line within a page. All indices are
/// zero-based and only meaningful against the document the caret belongs to.
///
/// The field order makes the derived ordering *document order*, which visual
/// mode relies on to find the earlier and later end of a selection without
/// caring which one the user is currently moving.
#[derive(Debug, Clone, Copy, PartialEq, Eq, Structural, PartialOrd, Ord)]
pub struct Caret {
    pub page: usize,
    pub line: usize,
    pub cell: usize,
}

/// Identity of an atomic object (a table or an image), used to tell "am I
/// still inside the object I started in" without holding a borrow on it.
#[derive(Debug, Clone, Copy, PartialEq, Eq, Structural)]
pub struct ObjectId {
    pub page: usize,
    pub start_line: usize,
}

/// Which end of an atomic object a motion should land on.
///
/// Every scope stepper lands on unit *starts*, so [`Landing::Start`] is the
/// rule everywhere a motion moves the caret. [`Landing::End`] is used only to
/// resolve the *other* edge of a span: a highlight needs both edges, even
/// though no motion ever lands on the second one directly.
#[derive(Debug, Clone, Copy, PartialEq, Eq, Structural)]
pub enum Landing {
    Start,
    End,
}

/// A movement direction for the caret.
#[derive(Debug, Clone, Copy, PartialEq, Eq, Structural)]
pub enum Dir {
    Left,
    Right,
    Up,
    Down,
}

/// A cell's class for Vim-like lowercase word motions.
#[derive(Debug, Clone, Copy, PartialEq, Eq, Structural)]
pub enum WordClass {
    /// Letters, digits and `_`.
    Word,
    /// Non-whitespace punctuation and symbols.
    Punctuation,
    /// Whitespace is skipped by word motions.
    Whitespace,
    /// Images are single word-like stops.
    Image,
}

/// What a cell of a content line holds: a character, or an image, which is a
/// single stop of its own.
#[derive(Debug, Clone, Copy, PartialEq, Eq, Structural)]
pub enum CellKind {
    Char(char),
    Image,
}

/// One cell of a content line, as caret motion reads it.
#[derive(Debug, Clone, Copy, PartialEq, Eq, Structural)]
pub struct Cell {
    pub kind: CellKind,
    /// A space the text extraction guessed from a gap between glyph runs,
    /// rather than a character the document holds.
    pub synthetic: bool,
}

/// A structural object of a page (a table, an image, a heading, a display
/// equation, a list item, a footnote, ...): the lines it occupies, inclusive
/// at both ends, and what its kind means for motion.
#[derive(Debug, Clone, Copy, PartialEq, Eq, Structural)]
pub struct ContentObject {
    pub start_line: usize,
    pub end_line: usize,
    pub kind: ObjectTraits,
}

/// Whether `c` is a letter, digit or underscore.
pub open spec fn word_char(c: char) -> bool {
    char_alphanumeric(c) || c == '_'
}

/// The word class of a cell holding `kind`.
pub open spec fn class_of(kind: CellKind) -> WordClass {
    match kind {
        CellKind::Char(c) => if word_char(c) {
            WordClass::Word
        } else if spec_is_whitespace(c) {
            WordClass::Whitespace
        } else {
            WordClass::Punctuation
        },
        CellKind::Image => WordClass::Image,
    }
}

/// Classify a cell for `w`/`e`/`b` caret motion.
pub fn word_class(cell: &Cell) -> (r: WordClass)
    ensures
        r == class_of(cell.kind),
{
    match cell.kind {
        CellKind::Char(c) => {
            if is_alphanumeric(c) || c == '_' {
                WordClass::Word
            } else if is_whitespace(c) {
                WordClass::Whitespace
            } else {
                WordClass::Punctuation
            }
        },
        CellKind::Image => WordClass::Image,
    }
}

/// Whether this class is a place word motions can land.
pub fn is_word_target(class: WordClass) -> (r: bool)
    ensures
        r == !(class is Whitespace),
{
    !matches!(class, WordClass::Whitespace)
}

/// Whether two adjacent cells are part of the same word-motion run.
///
/// Runs never continue across line/page boundaries, whitespace is skipped, and
/// each image is its own stop even when images are adjacent.
pub fn continues_word_run(left: WordClass, right: WordClass, same_line: bool) -> (r: bool)
    ensures
        r == (same_line && ((left is Word && right is Word) || (left is Punctuation
            && right is Punctuation))),
{
    same_line && match (left, right) {
        (WordClass::Word, WordClass::Word) => true,
        (WordClass::Punctuation, WordClass::Punctuation) => true,
        _ => false,
    }
}

/// The characters that end a sentence: `.`, `!` and `?`.
pub open spec fn terminator(c: char) -> bool {
    c == '.' || c == '!' || c == '?'
}

/// The closing characters that stay attached to the end of a sentence after
/// its terminator: quotes and closing brackets.
pub open spec fn trailer(c: char) -> bool {
    c == '"' || c == '\'' || c == ')' || c == ']' || c == '}' || c == '»' || c == '”' || c == '’'
}

/// Whether `c` ends a sentence.
///
/// This is the character's shape alone. A full stop inside a number is not a
/// terminator — see [`is_inside_number`] — but an abbreviation's full stop
/// (`Mr.`) still is, which remains a simplification.
pub fn is_sentence_terminator(c: char) -> (r: bool)
    ensures
        r == terminator(c),
{
    c == '.' || c == '!' || c == '?'
}

/// Whether `c` can sit *inside* a number, holding its digits together: a
/// decimal point or a digit-grouping separator.
pub fn is_numeric_separator(c: char) -> (r: bool)
    ensures
        r == (c == '.' || c == ','),
{
    c == '.' || c == ','
}

/// Whether `c` is a letter, digit or underscore — the sides of a dotted token
/// such as `VII.0`, `file.txt` or `3.14`.
fn is_dotted_token_char(c: char) -> (r: bool)
    ensures
        r == word_char(c),
{
    is_alphanumeric(c) || c == '_'
}

/// The hyphens: characters that join the words they sit between.
pub open spec fn spec_word_hyphen(c: char) -> bool {
    c == '-' || c == '\u{2010}' || c == '\u{2011}' || c == '\u{00ad}'
}

/// Whether `c` is a hyphen — a character that *joins* the words it sits
/// between rather than separating them.
///
/// Hyphens only. The en and em dashes (`–`, `—`) punctuate a sentence, so they
/// are deliberately absent: `one—two` is two words. The soft hyphen is here
/// because a PDF can carry one where a word was set to break and did not.
pub fn is_word_hyphen(c: char) -> (r: bool)
    ensures
        r == spec_word_hyphen(c),
{
    c == '-' || c == '\u{2010}' || c == '\u{2011}' || c == '\u{00ad}'
}

/// Whether `c` is present and satisfies `p`.
pub open spec fn some_and(c: Option<char>, p: spec_fn(char) -> bool) -> bool {
    match c {
        Some(x) => p(x),
        None => false,
    }
}

/// Whether `hyphen`, between `before` and `after`, joins a compound word:
/// a hyphen with a word character on both sides.
pub open spec fn inside_hyphenated_word(before: Option<char>, hyphen: char, after: Option<char>) -> bool {
    spec_word_hyphen(hyphen) && some_and(before, |c: char| word_char(c)) && some_and(
        after,
        |c: char| word_char(c),
    )
}

/// Whether `separator`, between `before` and `after`, sits inside a number:
/// a decimal point or grouping comma with a digit on both sides.
pub open spec fn inside_number(before: Option<char>, separator: char, after: Option<char>) -> bool {
    (separator == '.' || separator == ',') && some_and(before, |c: char| char_numeric(c))
        && some_and(after, |c: char| char_numeric(c))
}

/// Whether `separator`, between `before` and `after`, is the full stop of a
/// dotted identifier: a stop with a word character on both sides.
pub open spec fn inside_dotted_token(before: Option<char>, separator: char, after: Option<char>) -> bool {
    separator == '.' && some_and(before, |c: char| word_char(c)) && some_and(
        after,
        |c: char| word_char(c),
    )
}

/// Whether `sign` signs an exponent: a sign after an exponent marker that
/// follows a digit, with a digit after it.
pub open spec fn inside_scientific_exponent(
    before2: Option<char>,
    before: Option<char>,
    sign: char,
    after: Option<char>,
) -> bool {
    spec_exponent_sign(sign) && (before == Some('e') || before == Some('E')) && some_and(
        before2,
        |c: char| char_numeric(c),
    ) && some_and(after, |c: char| char_numeric(c))
}

/// Whether `c` is a proportion sign written right after a digit.
pub open spec fn attached_number_suffix(before: Option<char>, c: char) -> bool {
    spec_number_suffix(c) && some_and(before, |b: char| char_numeric(b))
}

/// Whether `hyphen`, with `before` and `after` beside it, joins a compound
/// word rather than punctuating the text.
///
/// Same shape as [`is_inside_number`]: word characters on *both* sides. That
/// makes `well-known`, `state-of-the-art` and `COVID-19` each one word, while a
/// dash used as punctuation (`one - two`, `well- known`, `one--two`) keeps the
/// stop of its own. It composes, so a chain of hyphens holds together.
pub fn is_inside_hyphenated_word(before: Option<char>, hyphen: char, after: Option<char>) -> (r:
    bool)
    ensures
        r == inside_hyphenated_word(before, hyphen, after),
{
    if !is_word_hyphen(hyphen) {
        return false;
    }
    let left = match before {
        Some(c) => is_alphanumeric(c) || c == '_',
        None => false,
    };
    let right = match after {
        Some(c) => is_alphanumeric(c) || c == '_',
        None => false,
    };
    left && right
}

/// Punctuation that continues the sentence it is in and so can never stand
/// between one sentence and the next.
pub fn is_sentence_continuation(c: char) -> (r: bool)
    ensures
        r == spec_continuation(c),
{
    c == ',' || c == ';' || c == ':'
}

/// The sentence-continuing punctuation: `,`, `;` and `:`.
pub open spec fn spec_continuation(c: char) -> bool {
    c == ',' || c == ';' || c == ':'
}

/// Whether `separator`, with `before` and `after` beside it, is punctuation
/// inside a number rather than between words or sentences.
///
/// This is what makes `3.14` one word and one sentence while the full stop in
/// `costs 3.` still ends both: the test is that digits flank the separator on
/// *both* sides. It composes, so `1,234.56` holds together throughout.
pub fn is_inside_number(before: Option<char>, separator: char, after: Option<char>) -> (r: bool)
    ensures
        r == inside_number(before, separator, after),
{
    if !is_numeric_separator(separator) {
        return false;
    }
    let left = match before {
        Some(c) => is_numeric(c),
        None => false,
    };
    let right = match after {
        Some(c) => is_numeric(c),
        None => false,
    };
    left && right
}

/// Whether a full stop joins two alphanumeric (or `_`) sides with no space —
/// a dotted identifier such as `VII.0`, `file.txt`, `a.b.c` or `3.14`.
///
/// Same asymmetry as [`is_inside_number`]: `word.` with nothing after still
/// ends the word and the sentence.
pub fn is_inside_dotted_token(before: Option<char>, separator: char, after: Option<char>) -> (r:
    bool)
    ensures
        r == inside_dotted_token(before, separator, after),
{
    if separator != '.' {
        return false;
    }
    let left = match before {
        Some(c) => is_dotted_token_char(c),
        None => false,
    };
    let right = match after {
        Some(c) => is_dotted_token_char(c),
        None => false,
    };
    left && right
}

/// The signs an exponent may carry, the Unicode minus included.
pub open spec fn spec_exponent_sign(c: char) -> bool {
    c == '+' || c == '-' || c == '\u{2212}'
}

/// Whether `c` can sign the exponent of a number in scientific notation.
///
/// The Unicode minus is included: a typesetter may well have used it where the
/// author wrote a hyphen.
pub fn is_exponent_sign(c: char) -> (r: bool)
    ensures
        r == spec_exponent_sign(c),
{
    c == '+' || c == '-' || c == '\u{2212}'
}

/// Whether `sign` is the sign of an exponent in scientific notation — the
/// `+` in `2.3E+5` — given the two characters before it and the one after.
///
/// `before` is the exponent marker (`e`/`E`) and `before2` the digit in front
/// of it. That digit is what separates a number from an identifier: without it
/// `cache+1` would join into one word.
pub fn is_inside_scientific_exponent(
    before2: Option<char>,
    before: Option<char>,
    sign: char,
    after: Option<char>,
) -> (r: bool)
    ensures
        r == inside_scientific_exponent(before2, before, sign, after),
{
    if !is_exponent_sign(sign) {
        return false;
    }
    let marker = match before {
        Some(c) => c == 'e' || c == 'E',
        None => false,
    };
    let digit = match before2 {
        Some(c) => is_numeric(c),
        None => false,
    };
    let exponent = match after {
        Some(c) => is_numeric(c),
        None => false,
    };
    marker && digit && exponent
}

/// The proportion signs: per cent, per mille and per ten thousand.
pub open spec fn spec_number_suffix(c: char) -> bool {
    c == '%' || c == '‰' || c == '‱'
}

/// Whether `c` is a sign that belongs to the figure it *follows*, as the `%` in
/// `45.5%` does.
///
/// Only the proportion signs, which are always written tight against the
/// figure and carry nothing after them. A unit (`°C`, `kg`) is deliberately not
/// here.
pub fn is_number_suffix(c: char) -> (r: bool)
    ensures
        r == spec_number_suffix(c),
{
    c == '%' || c == '‰' || c == '‱'
}

/// Whether `c`, with `before` beside it, is a suffix attached to a number
/// rather than a symbol standing on its own.
pub fn is_attached_number_suffix(before: Option<char>, c: char) -> (r: bool)
    ensures
        r == attached_number_suffix(before, c),
{
    if !is_number_suffix(c) {
        return false;
    }
    match before {
        Some(b) => is_numeric(b),
        None => false,
    }
}

/// Whether `c` is a closing character that stays attached to the end of a
/// sentence after its terminator (so `."` / `.)` close together).
pub fn is_sentence_trailer(c: char) -> (r: bool)
    ensures
        r == trailer(c),
{
    c == '"' || c == '\'' || c == ')' || c == ']' || c == '}' || c == '»' || c == '”' || c == '’'
}

/// `s` without one closing full stop, if it has one.
pub open spec fn strip_stop(s: Seq<char>) -> Seq<char> {
    if s.len() > 0 && s.last() == '.' {
        s.drop_last()
    } else {
        s
    }
}

/// Whether `b` is two or more groups of one or two letters joined by single
/// full stops: `e.g`, `U.S`, `Ph.D`, `a.k.a`.
pub open spec fn initials_shape(b: Seq<char>) -> bool {
    &&& b.len() > 0
    &&& b[0] != '.'
    &&& b.last() != '.'
    &&& exists|i: int| 0 <= i < b.len() && b[i] == '.'
    &&& forall|i: int| 0 <= i < b.len() ==> b[i] == '.' || char_alphabetic(b[i])
    &&& forall|i: int, j: int|
        0 <= i && j == i + 1 && j < b.len() ==> !(#[trigger] b[i] == '.' && #[trigger] b[j] == '.')
    &&& forall|i: int, j: int, k: int|
        0 <= i && j == i + 1 && k == i + 2 && k < b.len() ==> !(#[trigger] b[i] != '.'
            && #[trigger] b[j] != '.' && #[trigger] b[k] != '.')
}

/// Whether `token` is a run of short letter groups joined by stops, as in
/// `e.g.`, `i.e.`, `U.S.`, `Ph.D.` or `a.k.a.`.
///
/// Recognised by shape rather than by a list: no sentence ever ends in the
/// middle of one, and no list has to be maintained for each language.
pub fn is_dotted_initials(token: &str) -> (r: bool)
    ensures
        r == initials_shape(strip_stop(token@)),
{
    let cs = str_chars(token);
    let n = cs.len();
    let end: usize = if n > 0 && cs[n - 1] == '.' {
        n - 1
    } else {
        n
    };
    let ghost b = strip_stop(token@);
    assert(b =~= cs@.take(end as int));
    if end == 0 {
        return false;
    }
    if cs[0] == '.' {
        return false;
    }
    let mut run: usize = 0;
    let mut dots = false;
    let mut i: usize = 0;
    while i < end
        invariant
            cs@ == token@,
            end <= cs@.len(),
            b == cs@.take(end as int),
            b.len() == end,
            b[0] != '.',
            i <= end,
            run <= 2,
            run <= i,
            forall|k: int| i - run <= k < i ==> b[k] != '.',
            run < i ==> b[i - run - 1] == '.',
            dots == (exists|k: int| 0 <= k < i && b[k] == '.'),
            forall|k: int| 0 <= k < i ==> b[k] == '.' || char_alphabetic(b[k]),
            forall|p: int, q: int|
                0 <= p && q == p + 1 && q < i ==> !(#[trigger] b[p] == '.' && #[trigger] b[q]
                    == '.'),
            forall|p: int, q: int, t: int|
                0 <= p && q == p + 1 && t == p + 2 && t < i ==> !(#[trigger] b[p] != '.'
                    && #[trigger] b[q] != '.' && #[trigger] b[t] != '.'),
        decreases end - i,
    {
        let c = cs[i];
        assert(b[i as int] == c);
        if c == '.' {
            if run == 0 {
                assert(b[i - 1] == '.' && b[i as int] == '.');
                return false;
            }
            run = 0;
            dots = true;
        } else {
            if !is_alphabetic(c) {
                return false;
            }
            if run == 2 {
                assert(b[i - 2] != '.' && b[i - 1] != '.' && b[i as int] != '.');
                return false;
            }
            run = run + 1;
        }
        i = i + 1;
    }
    if run == 0 {
        assert(b.last() == '.');
        return false;
    }
    dots
}

/// The abbreviations whose closing full stop is usually not the end of a
/// sentence: lower-case and without the stop.
///
/// Dotted initials (`e.g.`, `U.S.`, `Ph.D.`) are *not* here — they are
/// recognised by shape. Several entries are also ordinary words that can
/// genuinely close a sentence (`no.`, `min.`, `co.`); that is safe because the
/// closing stop still ends a sentence when a capital follows it.
pub open spec fn abbreviation_list() -> Seq<Seq<char>> {
    seq![
        "al"@, "approx"@, "ca"@, "cf"@, "et"@, "etc"@, "ibid"@, "op"@, "resp"@, "seq"@, "viz"@,
        "vs"@, "app"@, "ch"@, "chap"@, "eq"@, "eqs"@, "fig"@, "figs"@, "no"@, "nos"@, "p"@,
        "para"@, "pp"@, "pt"@, "ref"@, "refs"@, "sec"@, "secs"@, "tab"@, "tabs"@, "vol"@,
        "vols"@, "ed"@, "eds"@, "orig"@, "repr"@, "rev"@, "suppl"@, "trans"@, "transl"@, "capt"@,
        "col"@, "dr"@, "gen"@, "hon"@, "jr"@, "lt"@, "mr"@, "mrs"@, "ms"@, "prof"@, "sgt"@,
        "sr"@, "st"@, "jan"@, "feb"@, "mar"@, "apr"@, "jun"@, "jul"@, "aug"@, "sep"@, "sept"@,
        "oct"@, "nov"@, "dec"@, "mon"@, "tue"@, "tues"@, "wed"@, "thu"@, "thur"@, "thurs"@,
        "fri"@, "sat"@, "sun"@, "co"@, "corp"@, "dept"@, "est"@, "excl"@, "incl"@, "inc"@,
        "ltd"@, "max"@, "min"@, "univ"@,
    ]
}

/// The abbreviations, as stored.
fn abbreviations() -> (v: Vec<&'static str>)
    ensures
        v@.map_values(|s: &str| s@) == abbreviation_list(),
{
    let v: Vec<&'static str> = vec![
        "al", "approx", "ca", "cf", "et", "etc", "ibid", "op", "resp", "seq", "viz", "vs", "app",
        "ch", "chap", "eq", "eqs", "fig", "figs", "no", "nos", "p", "para", "pp", "pt", "ref",
        "refs", "sec", "secs", "tab", "tabs", "vol", "vols", "ed", "eds", "orig", "repr", "rev",
        "suppl", "trans", "transl", "capt", "col", "dr", "gen", "hon", "jr", "lt", "mr", "mrs",
        "ms", "prof", "sgt", "sr", "st", "jan", "feb", "mar", "apr", "jun", "jul", "aug", "sep",
        "sept", "oct", "nov", "dec", "mon", "tue", "tues", "wed", "thu", "thur", "thurs", "fri",
        "sat", "sun", "co", "corp", "dept", "est", "excl", "incl", "inc", "ltd", "max", "min",
        "univ",
    ];
    assert(v@.map_values(|s: &str| s@) =~= abbreviation_list());
    v
}

/// Whether `token`, with or without its closing stop and in any case, is one
/// of the known abbreviations.
pub open spec fn known_abbreviation(token: Seq<char>) -> bool {
    let body = lowercase_chars(strip_stop(token));
    body.len() > 0 && abbreviation_list().contains(body)
}

/// Whether `token` — with or without its closing stop — is a known
/// abbreviation.
pub fn is_known_abbreviation(token: &str) -> (r: bool)
    ensures
        r == known_abbreviation(token@),
{
    let cs = str_chars(token);
    let n = cs.len();
    let end: usize = if n > 0 && cs[n - 1] == '.' {
        n - 1
    } else {
        n
    };
    let mut body: Vec<char> = Vec::new();
    let mut i: usize = 0;
    while i < end
        invariant
            end <= cs@.len(),
            i <= end,
            body@ == cs@.take(i as int),
        decreases end - i,
    {
        body.push(cs[i]);
        i = i + 1;
    }
    assert(body@ =~= strip_stop(token@));
    let plain = string_of(&body);
    let lower = to_lowercase(plain.as_str());
    if lower.as_str().unicode_len() == 0 {
        return false;
    }
    let list = abbreviations();
    let ghost all = abbreviation_list();
    let mut k: usize = 0;
    while k < list.len()
        invariant
            k <= list@.len(),
            list@.map_values(|s: &str| s@) == all,
            all == abbreviation_list(),
            lower@ == lowercase_chars(strip_stop(token@)),
            lower@.len() > 0,
            forall|j: int| 0 <= j < k ==> all[j] != lower@,
        decreases list@.len() - k,
    {
        if str_eq(list[k], lower.as_str()) {
            assert(all.len() == list@.len());
            assert(all[k as int] == lower@);
            assert(all.contains(lower@));
            return true;
        }
        k = k + 1;
    }
    false
}

/// Whether `token` is an abbreviation of either kind.
pub fn is_abbreviation(token: &str) -> (r: bool)
    ensures
        r == (initials_shape(strip_stop(token@)) || known_abbreviation(token@)),
{
    is_dotted_initials(token) || is_known_abbreviation(token)
}

/// Whether `c` decides if what follows opens a sentence: a letter or digit,
/// or punctuation that continues the sentence.
pub open spec fn sentence_deciding(c: char) -> bool {
    char_alphanumeric(c) || spec_continuation(c)
}

/// Whether the first deciding character of `s` exists and is a capital.
pub open spec fn opens_sentence(s: Seq<char>) -> bool {
    exists|i: int|
        0 <= i < s.len() && sentence_deciding(s[i]) && (forall|j: int|
            0 <= j < i ==> !sentence_deciding(#[trigger] s[j])) && char_uppercase(s[i])
}

/// Whether text starting with `next` reads as a new sentence — the first
/// letter or digit after any opening punctuation is a capital, and no
/// continuing punctuation comes first.
///
/// The second half is what carries `(e.g., Smith 2020)`: the capital would
/// otherwise say "new sentence" while the comma in front of it says the text
/// runs on, and the comma is the stronger signal.
pub fn opens_a_sentence(next: &str) -> (r: bool)
    ensures
        r == opens_sentence(next@),
{
    let cs = str_chars(next);
    let mut i: usize = 0;
    while i < cs.len()
        invariant
            cs@ == next@,
            i <= cs@.len(),
            forall|j: int| 0 <= j < i ==> !sentence_deciding(#[trigger] cs@[j]),
        decreases cs@.len() - i,
    {
        let c = cs[i];
        if is_alphanumeric(c) || is_sentence_continuation(c) {
            let up = is_uppercase(c);
            proof {
                if !up {
                    assert forall|w: int|
                        0 <= w < cs@.len() && sentence_deciding(cs@[w]) && (forall|j: int|
                            0 <= j < w ==> !sentence_deciding(#[trigger] cs@[j])) implies !char_uppercase(
                        cs@[w],
                    ) by {
                        if w < i {
                        } else if w > i {
                            assert(!sentence_deciding(cs@[i as int]));
                        }
                    }
                }
            }
            return up;
        }
        i = i + 1;
    }
    false
}

/// Whether a cell is white space: a white-space character. An image never is.
pub open spec fn blank_cell(c: Cell) -> bool {
    match c.kind {
        CellKind::Char(ch) => spec_is_whitespace(ch),
        CellKind::Image => false,
    }
}

/// Whether cell `idx` of `cells` is a colon followed by nothing but white
/// space to the end of the line.
pub open spec fn line_final_colon(cells: Seq<Cell>, idx: int) -> bool {
    &&& 0 <= idx < cells.len()
    &&& cells[idx].kind == CellKind::Char(':')
    &&& forall|k: int| idx < k < cells.len() ==> blank_cell(#[trigger] cells[k])
}

/// Whether cell `idx` is a colon whose only followers on the line are
/// whitespace characters — the line ends at that colon.
///
/// Image cells count as non-whitespace, so `colon` + image does not qualify.
pub fn is_line_final_colon(cells: &[Cell], idx: usize) -> (r: bool)
    ensures
        r == line_final_colon(cells@, idx as int),
{
    if idx >= cells.len() {
        return false;
    }
    match cells[idx].kind {
        CellKind::Char(c) => {
            if c != ':' {
                return false;
            }
        },
        CellKind::Image => {
            return false;
        },
    }
    let mut k: usize = idx + 1;
    while k < cells.len()
        invariant
            idx < k <= cells@.len(),
            forall|j: int| idx < j < k ==> blank_cell(#[trigger] cells@[j]),
        decreases cells@.len() - k,
    {
        let blank = match cells[k].kind {
            CellKind::Char(ch) => is_whitespace(ch),
            CellKind::Image => false,
        };
        if !blank {
            return false;
        }
        k = k + 1;
    }
    true
}

/// Whether the last non-whitespace cell of `cells` is a colon.
///
/// The paragraph-break form of [`is_line_final_colon`]: a line that ends in
/// `:` (optionally followed by spaces) starts a new paragraph at the next
/// line.
pub fn line_ends_with_colon(cells: &[Cell]) -> (r: bool)
    ensures
        r == exists|i: int| line_final_colon(cells@, i),
{
    let mut k: usize = cells.len();
    while k > 0
        invariant
            k <= cells@.len(),
            forall|j: int| k <= j < cells@.len() ==> blank_cell(#[trigger] cells@[j]),
        decreases k,
    {
        let blank = match cells[k - 1].kind {
            CellKind::Char(ch) => is_whitespace(ch),
            CellKind::Image => false,
        };
        if !blank {
            let r = is_line_final_colon(cells, k - 1);
            proof {
                if !r {
                    assert forall|i: int| !line_final_colon(cells@, i) by {
                        if line_final_colon(cells@, i) {
                            if i < k - 1 {
                                assert(blank_cell(cells@[k - 1]));
                            } else if i > k - 1 {
                                assert(blank_cell(cells@[i]));
                            }
                        }
                    }
                }
            }
            return r;
        }
        k = k - 1;
    }
    proof {
        assert forall|i: int| !line_final_colon(cells@, i) by {
            if 0 <= i < cells@.len() {
                assert(blank_cell(cells@[i]));
            }
        }
    }
    false
}

/// Whether `line` lies within object `o`.
pub open spec fn holds_line(o: ContentObject, line: int) -> bool {
    o.start_line <= line <= o.end_line
}

/// The index of the first object of `objects` that holds `line`, if any.
pub open spec fn object_at(objects: Seq<ContentObject>, line: int) -> Option<int>
    decreases objects.len(),
{
    if objects.len() == 0 {
        None
    } else {
        match object_at(objects.drop_last(), line) {
            Some(i) => Some(i),
            None => if holds_line(objects.last(), line) {
                Some(objects.len() - 1)
            } else {
                None
            },
        }
    }
}

/// [`object_at`] is the first object holding the line, or `None` when no
/// object holds it.
pub proof fn lemma_object_at(objects: Seq<ContentObject>, line: int)
    ensures
        match object_at(objects, line) {
            Some(i) => 0 <= i < objects.len() && holds_line(objects[i], line) && forall|j: int|
                0 <= j < i ==> !holds_line(#[trigger] objects[j], line),
            None => forall|j: int| 0 <= j < objects.len() ==> !holds_line(#[trigger] objects[j], line),
        },
    decreases objects.len(),
{
    if objects.len() > 0 {
        let d = objects.drop_last();
        lemma_object_at(d, line);
        assert forall|j: int| 0 <= j < d.len() implies #[trigger] d[j] == objects[j] by {}
        match object_at(d, line) {
            Some(i) => {
                assert(d[i] == objects[i]);
                assert forall|j: int| 0 <= j < i implies !holds_line(#[trigger] objects[j], line) by {
                    assert(d[j] == objects[j]);
                }
            },
            None => {
                assert forall|j: int| 0 <= j < d.len() implies !holds_line(
                    #[trigger] objects[j],
                    line,
                ) by {
                    assert(d[j] == objects[j]);
                }
            },
        }
    }
}

/// Index of the object containing `line`, if any: the first one, should
/// objects overlap.
///
/// A page's objects are sorted by `start_line` with disjoint ranges, so a
/// linear scan is both correct and, at the handful of objects a page has,
/// faster than a search.
pub fn object_index_at(objects: &[ContentObject], line: usize) -> (r: Option<usize>)
    ensures
        match r {
            Some(i) => i < objects@.len() && holds_line(objects@[i as int], line as int)
                && forall|j: int| 0 <= j < i ==> !holds_line(#[trigger] objects@[j], line as int),
            None => forall|j: int|
                0 <= j < objects@.len() ==> !holds_line(#[trigger] objects@[j], line as int),
        },
{
    let mut i: usize = 0;
    while i < objects.len()
        invariant
            i <= objects@.len(),
            forall|j: int| 0 <= j < i ==> !holds_line(#[trigger] objects@[j], line as int),
        decreases objects@.len() - i,
    {
        if line >= objects[i].start_line && line <= objects[i].end_line {
            return Some(i);
        }
        i = i + 1;
    }
    None
}

/// When object `i` is the first to hold `line`, [`object_at`] finds it.
pub proof fn lemma_object_at_first(objects: Seq<ContentObject>, line: int, i: int)
    requires
        0 <= i < objects.len(),
        holds_line(objects[i], line),
        forall|j: int| 0 <= j < i ==> !holds_line(#[trigger] objects[j], line),
    ensures
        object_at(objects, line) == Some(i),
{
    lemma_object_at(objects, line);
    match object_at(objects, line) {
        Some(c) => {
            if c < i {
                assert(!holds_line(objects[c], line));
            }
            if c > i {
                assert(!holds_line(objects[i], line));
            }
        },
        None => {
            assert(!holds_line(objects[i], line));
        },
    }
}

/// The smallest start line among the objects that start after `cur` and no
/// later than `end`.
pub open spec fn next_object_start(objects: Seq<ContentObject>, cur: int, end: int) -> Option<
    int,
>
    decreases objects.len(),
{
    if objects.len() == 0 {
        None
    } else {
        let rest = next_object_start(objects.drop_last(), cur, end);
        let s = objects.last().start_line as int;
        if cur < s <= end {
            match rest {
                Some(m) => Some(
                    if s < m {
                        s
                    } else {
                        m
                    },
                ),
                None => Some(s),
            }
        } else {
            rest
        }
    }
}

/// The next object start lies after `cur` and within the segment, and no
/// object starts strictly between `cur` and it.
pub proof fn lemma_next_object_start(objects: Seq<ContentObject>, cur: int, end: int)
    ensures
        match next_object_start(objects, cur, end) {
            Some(n) => cur < n <= end && (exists|j: int|
                0 <= j < objects.len() && objects[j].start_line == n) && forall|j: int|
                0 <= j < objects.len() && cur < #[trigger] objects[j].start_line <= end ==> n
                    <= objects[j].start_line,
            None => forall|j: int|
                0 <= j < objects.len() ==> !(cur < #[trigger] objects[j].start_line <= end),
        },
    decreases objects.len(),
{
    if objects.len() > 0 {
        let d = objects.drop_last();
        lemma_next_object_start(d, cur, end);
        assert forall|j: int| 0 <= j < d.len() implies #[trigger] d[j] == objects[j] by {}
        let last = objects.len() - 1;
        let s = objects[last].start_line as int;
        match next_object_start(d, cur, end) {
            Some(m) => {
                let w = choose|j: int| 0 <= j < d.len() && d[j].start_line == m;
                assert(objects[w].start_line == m);
                assert forall|j: int|
                    0 <= j < objects.len() && cur < #[trigger] objects[j].start_line
                        <= end implies next_object_start(objects, cur, end).unwrap()
                    <= objects[j].start_line by {
                    if j < last {
                        assert(d[j].start_line == objects[j].start_line);
                    }
                }
                if cur < s <= end && s < m {
                    assert(objects[last].start_line == s);
                }
            },
            None => {
                if cur < s <= end {
                    assert(objects[last].start_line == s);
                    assert forall|j: int|
                        0 <= j < objects.len() && cur < #[trigger] objects[j].start_line
                            <= end implies s <= objects[j].start_line by {
                        if j < last {
                            assert(d[j].start_line == objects[j].start_line);
                        }
                    }
                } else {
                    assert forall|j: int|
                        0 <= j < objects.len() implies !(cur < #[trigger] objects[j].start_line
                        <= end) by {
                        if j < last {
                            assert(d[j].start_line == objects[j].start_line);
                        }
                    }
                }
            },
        }
    }
}

/// The last line of the piece that starts at `cur` in a segment ending at
/// `end`: the rest of the object holding `cur`, or else the lines up to the
/// next object, or else the rest of the segment.
pub open spec fn piece_end(objects: Seq<ContentObject>, cur: int, end: int) -> int {
    match object_at(objects, cur) {
        Some(i) => if (objects[i].end_line as int) < end {
            objects[i].end_line as int
        } else {
            end
        },
        None => match next_object_start(objects, cur, end) {
            Some(n) => n - 1,
            None => end,
        },
    }
}

/// The pieces lines `cur..=end` of a segment are cut into.
pub open spec fn split_run(objects: Seq<ContentObject>, cur: int, end: int) -> Seq<(usize, usize)>
    decreases end + 1 - cur,
{
    if cur > end {
        Seq::empty()
    } else {
        let stop = piece_end(objects, cur, end);
        if stop < cur || stop > end {
            Seq::empty()
        } else {
            seq![(cur as usize, stop as usize)] + split_run(objects, stop + 1, end)
        }
    }
}

/// The pieces every segment of `segments` is cut into, in order.
pub open spec fn split_all(segments: Seq<(usize, usize)>, objects: Seq<ContentObject>) -> Seq<
    (usize, usize),
>
    decreases segments.len(),
{
    if segments.len() == 0 {
        Seq::empty()
    } else {
        split_all(segments.drop_last(), objects) + split_run(
            objects,
            segments.last().0 as int,
            segments.last().1 as int,
        )
    }
}

/// The piece starting at `cur` ends at or after it.
pub proof fn lemma_piece_end_advances(objects: Seq<ContentObject>, cur: int, end: int)
    requires
        cur <= end,
    ensures
        cur <= piece_end(objects, cur, end) <= end,
{
    lemma_next_object_start(objects, cur, end);
    lemma_object_at(objects, cur);
}

/// The smallest start line among the objects that start after `cur` and no
/// later than `end`.
fn next_start_in(objects: &[ContentObject], cur: usize, end: usize) -> (r: Option<usize>)
    ensures
        match r {
            Some(n) => next_object_start(objects@, cur as int, end as int) == Some(n as int),
            None => next_object_start(objects@, cur as int, end as int) is None,
        },
{
    let mut best: Option<usize> = None;
    let mut i: usize = 0;
    while i < objects.len()
        invariant
            i <= objects@.len(),
            match best {
                Some(n) => next_object_start(objects@.take(i as int), cur as int, end as int)
                    == Some(n as int),
                None => next_object_start(objects@.take(i as int), cur as int, end as int) is None,
            },
        decreases objects@.len() - i,
    {
        let s = objects[i].start_line;
        assert(objects@.take(i + 1).drop_last() =~= objects@.take(i as int));
        if s > cur && s <= end {
            best = match best {
                Some(m) => Some(
                    if s < m {
                        s
                    } else {
                        m
                    },
                ),
                None => Some(s),
            };
        }
        i = i + 1;
    }
    assert(objects@.take(objects@.len() as int) =~= objects@);
    best
}

/// Cut paragraph segments so no segment straddles an atomic object, and every
/// object is a segment of its own.
///
/// Paragraph grouping by vertical gaps can merge a figure or a table into the
/// prose next to it. Splitting afterwards keeps that heuristic untouched while
/// making paragraph scope respect object boundaries. Segments are inclusive
/// `(start_line, end_line)` ranges.
pub fn split_segments_at_objects(segments: &[(usize, usize)], objects: &[ContentObject]) -> (r:
    Vec<(usize, usize)>)
    requires
        objects@.len() > 0 ==> forall|k: int|
            0 <= k < segments@.len() ==> (#[trigger] segments@[k]).1 < usize::MAX,
    ensures
        objects@.len() == 0 ==> r@ == segments@,
        objects@.len() > 0 ==> r@ == split_all(segments@, objects@),
{
    if objects.len() == 0 {
        let mut copy: Vec<(usize, usize)> = Vec::new();
        let mut k: usize = 0;
        while k < segments.len()
            invariant
                k <= segments@.len(),
                copy@ == segments@.take(k as int),
            decreases segments@.len() - k,
        {
            copy.push(segments[k]);
            assert(copy@ =~= segments@.take(k + 1));
            k = k + 1;
        }
        assert(segments@.take(segments@.len() as int) =~= segments@);
        return copy;
    }
    let mut out: Vec<(usize, usize)> = Vec::new();
    let mut si: usize = 0;
    while si < segments.len()
        invariant
            si <= segments@.len(),
            objects@.len() > 0,
            forall|k: int| 0 <= k < segments@.len() ==> (#[trigger] segments@[k]).1 < usize::MAX,
            out@ == split_all(segments@.take(si as int), objects@),
        decreases segments@.len() - si,
    {
        let (start, end) = segments[si];
        assert(segments@.take(si + 1).drop_last() =~= segments@.take(si as int));
        let ghost target = split_all(segments@.take(si + 1), objects@);
        assert(target == out@ + split_run(objects@, start as int, end as int));
        let mut cur = start;
        while cur <= end
            invariant
                end < usize::MAX,
                out@ + split_run(objects@, cur as int, end as int) == target,
            decreases end + 1 - cur,
        {
            proof {
                lemma_piece_end_advances(objects@, cur as int, end as int);
            }
            let stop = match object_index_at(objects, cur) {
                Some(i) => {
                    proof {
                        lemma_object_at_first(objects@, cur as int, i as int);
                    }
                    if objects[i].end_line < end {
                        objects[i].end_line
                    } else {
                        end
                    }
                },
                None => {
                    proof {
                        lemma_object_at(objects@, cur as int);
                        if object_at(objects@, cur as int) is Some {
                            let w = object_at(objects@, cur as int).unwrap();
                            assert(holds_line(objects@[w], cur as int));
                        }
                    }
                    match next_start_in(objects, cur, end) {
                        Some(n) => n - 1,
                        None => end,
                    }
                },
            };
            assert(stop == piece_end(objects@, cur as int, end as int));
            let ghost before = out@;
            out.push((cur, stop));
            assert(out@ + split_run(objects@, stop + 1, end as int) =~= before + split_run(
                objects@,
                cur as int,
                end as int,
            ));
            cur = stop + 1;
        }
        assert(out@ =~= target);
        si = si + 1;
    }
    assert(segments@.take(segments@.len() as int) =~= segments@);
    out
}

/// No two objects of `objects` share a line.
pub open spec fn objects_disjoint(objects: Seq<ContentObject>) -> bool {
    forall|i: int, j: int|
        0 <= i < objects.len() && 0 <= j < objects.len() && i != j ==> (#[trigger] objects[i]).end_line
            < (#[trigger] objects[j]).start_line || objects[j].end_line < objects[i].start_line
}

/// The lines `p.0..=p.1` lie wholly inside object `o` or wholly outside it.
pub open spec fn respects_object(p: (usize, usize), o: ContentObject) -> bool {
    (o.start_line <= p.0 && p.1 <= o.end_line) || p.1 < o.start_line || o.end_line < p.0
}

/// Cutting never produces a piece that straddles an object: every piece is a
/// non-empty run of lines lying inside one object or outside all of them.
pub proof fn lemma_split_run_respects_objects(objects: Seq<ContentObject>, cur: int, end: int)
    requires
        objects_disjoint(objects),
        0 <= cur,
        end <= usize::MAX,
    ensures
        forall|k: int|
            0 <= k < split_run(objects, cur, end).len() ==> #[trigger] split_run(
                objects,
                cur,
                end,
            )[k].0 <= split_run(objects, cur, end)[k].1 && forall|o: int|
                0 <= o < objects.len() ==> respects_object(
                    split_run(objects, cur, end)[k],
                    #[trigger] objects[o],
                ),
    decreases end + 1 - cur,
{
    if cur <= end {
        let stop = piece_end(objects, cur, end);
        if cur <= stop <= end {
            lemma_split_run_respects_objects(objects, stop + 1, end);
            lemma_piece_end_advances(objects, cur, end);
            let rest = split_run(objects, stop + 1, end);
            let all = split_run(objects, cur, end);
            assert(all == seq![(cur as usize, stop as usize)] + rest);
            lemma_object_at(objects, cur);
            lemma_next_object_start(objects, cur, end);
            assert forall|o: int| 0 <= o < objects.len() implies respects_object(
                (cur as usize, stop as usize),
                #[trigger] objects[o],
            ) by {
                match object_at(objects, cur) {
                    Some(i) => {
                        if o != i {
                            assert(objects[i].end_line < objects[o].start_line
                                || objects[o].end_line < objects[i].start_line);
                        }
                    },
                    None => {
                        assert(!holds_line(objects[o], cur));
                    },
                }
            }
            assert forall|k: int| 0 <= k < all.len() implies #[trigger] all[k].0 <= all[k].1
                && forall|o: int|
                0 <= o < objects.len() ==> respects_object(all[k], #[trigger] objects[o]) by {
                if k > 0 {
                    assert(all[k] == rest[k - 1]);
                }
            }
        }
    }
}

/// The pieces lines `cur..=end` are cut into cover exactly those lines, in
/// order, each starting on the line after the previous one ends.
pub proof fn lemma_split_run_tiles(objects: Seq<ContentObject>, cur: int, end: int)
    requires
        0 <= cur <= end <= usize::MAX,
    ensures
        split_run(objects, cur, end).len() > 0,
        split_run(objects, cur, end)[0].0 == cur,
        split_run(objects, cur, end).last().1 == end,
        forall|k: int|
            0 <= k < split_run(objects, cur, end).len() ==> #[trigger] split_run(
                objects,
                cur,
                end,
            )[k].0 <= split_run(objects, cur, end)[k].1,
        forall|k: int|
            0 <= k < split_run(objects, cur, end).len() - 1 ==> #[trigger] split_run(
                objects,
                cur,
                end,
            )[k].1 + 1 == split_run(objects, cur, end)[k + 1].0,
    decreases end + 1 - cur,
{
    lemma_piece_end_advances(objects, cur, end);
    let stop = piece_end(objects, cur, end);
    let all = split_run(objects, cur, end);
    let rest = split_run(objects, stop + 1, end);
    assert(all == seq![(cur as usize, stop as usize)] + rest);
    if stop < end {
        lemma_split_run_tiles(objects, stop + 1, end);
        assert forall|k: int| 0 <= k < all.len() implies #[trigger] all[k].0 <= all[k].1 by {
            if k > 0 {
                assert(all[k] == rest[k - 1]);
            }
        }
        assert forall|k: int| 0 <= k < all.len() - 1 implies #[trigger] all[k].1 + 1 == all[k
            + 1].0 by {
            assert(all[k + 1] == rest[k]);
            if k > 0 {
                assert(all[k] == rest[k - 1]);
            }
        }
    } else {
        assert(rest.len() == 0);
        assert(all.len() == 1);
    }
}

/// An object lying within a segment, among objects that share no line, comes
/// out of the cutting as a piece of its own, exactly its lines.
pub proof fn lemma_split_run_isolates_object(
    objects: Seq<ContentObject>,
    cur: int,
    end: int,
    o: int,
)
    requires
        objects_disjoint(objects),
        0 <= o < objects.len(),
        0 <= cur <= objects[o].start_line,
        objects[o].start_line <= objects[o].end_line <= end,
    ensures
        split_run(objects, cur, end).contains(
            (objects[o].start_line, objects[o].end_line),
        ),
    decreases end + 1 - cur,
{
    let ob = objects[o];
    lemma_piece_end_advances(objects, cur, end);
    lemma_object_at(objects, cur);
    lemma_next_object_start(objects, cur, end);
    let stop = piece_end(objects, cur, end);
    let all = split_run(objects, cur, end);
    let rest = split_run(objects, stop + 1, end);
    assert(all == seq![(cur as usize, stop as usize)] + rest);
    if cur == ob.start_line {
        lemma_object_at_first(objects, cur, o);
        assert(all[0] == (ob.start_line, ob.end_line));
    } else {
        match object_at(objects, cur) {
            Some(i) => {
                assert(i != o);
                assert(objects[i].end_line < ob.start_line || ob.end_line < objects[i].start_line);
            },
            None => {
                assert(cur < objects[o].start_line <= end);
            },
        }
        assert(stop < ob.start_line);
        lemma_split_run_isolates_object(objects, stop + 1, end, o);
        let w = choose|w: int| 0 <= w < rest.len() && rest[w] == (ob.start_line, ob.end_line);
        assert(all[w + 1] == rest[w]);
    }
}

/// Brackets and quotes a link may be wrapped in.
pub open spec fn spec_link_opener(c: char) -> bool {
    c == '(' || c == '[' || c == '{' || c == '<' || c == '"' || c == '\'' || c == '«' || c == '“'
        || c == '‘'
}

/// Brackets and quotes a link may be wrapped in.
fn is_link_opener(c: char) -> (r: bool)
    ensures
        r == spec_link_opener(c),
{
    c == '(' || c == '[' || c == '{' || c == '<' || c == '"' || c == '\'' || c == '«' || c == '“'
        || c == '‘'
}

/// Punctuation that follows a link in prose without belonging to it.
pub open spec fn spec_link_trailer(c: char) -> bool {
    c == '.' || c == ',' || c == ';' || c == ':' || c == '!' || c == '?' || c == '"' || c == '\''
        || c == '>' || c == '»' || c == '”' || c == '’'
}

/// Punctuation that follows a link in prose without belonging to it. Closing
/// brackets are handled separately, since a link may contain a matched pair.
fn is_link_trailer(c: char) -> (r: bool)
    ensures
        r == spec_link_trailer(c),
{
    c == '.' || c == ',' || c == ';' || c == ':' || c == '!' || c == '?' || c == '"' || c == '\''
        || c == '>' || c == '»' || c == '”' || c == '’'
}

/// The opening bracket `c` closes, if it is a closing bracket.
pub open spec fn opener_of(c: char) -> Option<char> {
    if c == ')' {
        Some('(')
    } else if c == ']' {
        Some('[')
    } else if c == '}' {
        Some('{')
    } else {
        None
    }
}

/// The opening bracket `c` closes, if it is a closing bracket.
fn matching_opener(c: char) -> (r: Option<char>)
    ensures
        r == opener_of(c),
{
    match c {
        ')' => Some('('),
        ']' => Some('['),
        '}' => Some('{'),
        _ => None,
    }
}

/// Whether `s` is shaped like a URL scheme (`https`, `ftp`, `git+ssh`): one
/// to sixteen letters, digits, `+`, `-` or `.`, starting with a letter.
pub open spec fn url_scheme(s: Seq<char>) -> bool {
    &&& 1 <= s.len() <= 16
    &&& char_alphabetic(s[0])
    &&& forall|i: int|
        0 <= i < s.len() ==> char_alphanumeric(#[trigger] s[i]) || s[i] == '+' || s[i] == '-'
            || s[i] == '.'
}

/// Whether `s` is shaped like a URL scheme (`https`, `ftp`, `git+ssh`).
fn is_url_scheme(s: &[char]) -> (r: bool)
    ensures
        r == url_scheme(s@),
{
    if s.len() == 0 || s.len() > 16 {
        return false;
    }
    if !is_alphabetic(s[0]) {
        return false;
    }
    let mut i: usize = 0;
    while i < s.len()
        invariant
            i <= s@.len(),
            forall|k: int|
                0 <= k < i ==> char_alphanumeric(#[trigger] s@[k]) || s@[k] == '+' || s@[k] == '-'
                    || s@[k] == '.',
        decreases s@.len() - i,
    {
        let c = s[i];
        if !(is_alphanumeric(c) || c == '+' || c == '-' || c == '.') {
            return false;
        }
        i = i + 1;
    }
    true
}

/// A character a host-name label may hold.
pub open spec fn label_char(c: char) -> bool {
    char_alphanumeric(c) || c == '-' || c == '_'
}

/// Whether `h` is a dotted host name: two or more non-empty labels of
/// letters, digits, `-` and `_`, joined by single full stops, the last label
/// (the top-level domain) being two to twenty-four letters.
pub open spec fn dotted_host(h: Seq<char>) -> bool {
    &&& h.len() > 0
    &&& h[0] != '.'
    &&& h.last() != '.'
    &&& forall|i: int| 0 <= i < h.len() ==> #[trigger] h[i] == '.' || label_char(h[i])
    &&& forall|i: int, j: int|
        0 <= i && j == i + 1 && j < h.len() ==> !(#[trigger] h[i] == '.' && #[trigger] h[j] == '.')
    &&& exists|d: int|
        0 <= d < h.len() && #[trigger] h[d] == '.' && (forall|k: int|
            d < k < h.len() ==> #[trigger] h[k] != '.' && char_alphabetic(h[k])) && 2 <= h.len()
            - 1 - d <= 24
}

/// Whether `host` is a dotted host name: labels of word characters, with a
/// plausible alphabetic top-level domain last.
fn is_dotted_host(host: &[char]) -> (r: bool)
    ensures
        r == dotted_host(host@),
{
    let n = host.len();
    if n == 0 || host[0] == '.' || host[n - 1] == '.' {
        return false;
    }
    let mut last_dot: usize = 0;
    let mut found = false;
    let mut i: usize = 0;
    while i < n
        invariant
            n == host@.len(),
            n > 0,
            host@[0] != '.',
            i <= n,
            forall|k: int| 0 <= k < i ==> #[trigger] host@[k] == '.' || label_char(host@[k]),
            forall|p: int, q: int|
                0 <= p && q == p + 1 && q < i ==> !(#[trigger] host@[p] == '.'
                    && #[trigger] host@[q] == '.'),
            found ==> last_dot < i && host@[last_dot as int] == '.' && forall|k: int|
                last_dot < k < i ==> #[trigger] host@[k] != '.',
            !found ==> forall|k: int| 0 <= k < i ==> #[trigger] host@[k] != '.',
        decreases n - i,
    {
        let c = host[i];
        if c == '.' {
            if i > 0 && host[i - 1] == '.' {
                return false;
            }
            last_dot = i;
            found = true;
        } else if !(is_alphanumeric(c) || c == '-' || c == '_') {
            return false;
        }
        i = i + 1;
    }
    if !found {
        proof {
            if dotted_host(host@) {
                let d = choose|d: int|
                    0 <= d < host@.len() && #[trigger] host@[d] == '.' && (forall|k: int|
                        d < k < host@.len() ==> #[trigger] host@[k] != '.' && char_alphabetic(
                            host@[k],
                        )) && 2 <= host@.len() - 1 - d <= 24;
                assert(host@[d] != '.');
            }
        }
        return false;
    }
    let tld = n - 1 - last_dot;
    let mut k: usize = last_dot + 1;
    while k < n
        invariant
            n == host@.len(),
            last_dot < n,
            last_dot + 1 <= k <= n,
            host@[last_dot as int] == '.',
            forall|j: int| last_dot < j < n ==> #[trigger] host@[j] != '.',
            forall|j: int| last_dot < j < k ==> char_alphabetic(#[trigger] host@[j]),
        decreases n - k,
    {
        if !is_alphabetic(host[k]) {
            proof {
                if dotted_host(host@) {
                    let d = choose|d: int|
                        0 <= d < host@.len() && #[trigger] host@[d] == '.' && (forall|j: int|
                            d < j < host@.len() ==> #[trigger] host@[j] != '.' && char_alphabetic(
                                host@[j],
                            )) && 2 <= host@.len() - 1 - d <= 24;
                    if d < last_dot {
                        assert(host@[last_dot as int] == '.');
                    } else if d > last_dot {
                        assert(host@[d] != '.');
                    }
                }
            }
            return false;
        }
        k = k + 1;
    }
    let ok = 2 <= tld && tld <= 24;
    proof {
        if ok {
            assert(host@[last_dot as int] == '.');
        } else if dotted_host(host@) {
            let d = choose|d: int|
                0 <= d < host@.len() && #[trigger] host@[d] == '.' && (forall|j: int|
                    d < j < host@.len() ==> #[trigger] host@[j] != '.' && char_alphabetic(host@[j]))
                    && 2 <= host@.len() - 1 - d <= 24;
            if d < last_dot {
                assert(host@[last_dot as int] == '.');
            } else if d > last_dot {
                assert(host@[d] != '.');
            }
        }
    }
    ok
}

/// The first position at or after `i` where `s` holds `c`.
pub open spec fn find_char(s: Seq<char>, c: char, i: int) -> Option<int>
    decreases s.len() - i,
{
    if i < 0 || i >= s.len() {
        None
    } else if s[i] == c {
        Some(i)
    } else {
        find_char(s, c, i + 1)
    }
}

/// The first position at or after `i` where `s` holds `://`.
pub open spec fn find_authority(s: Seq<char>, i: int) -> Option<int>
    decreases s.len() - i,
{
    if i < 0 || i + 3 > s.len() {
        None
    } else if s[i] == ':' && s[i + 1] == '/' && s[i + 2] == '/' {
        Some(i)
    } else {
        find_authority(s, i + 1)
    }
}

/// The position of the first `c` in `s`.
fn first_char_at(s: &[char], c: char) -> (r: Option<usize>)
    ensures
        match r {
            Some(i) => find_char(s@, c, 0) == Some(i as int),
            None => find_char(s@, c, 0) is None,
        },
{
    let mut i: usize = 0;
    while i < s.len()
        invariant
            i <= s@.len(),
            find_char(s@, c, 0) == find_char(s@, c, i as int),
        decreases s@.len() - i,
    {
        if s[i] == c {
            return Some(i);
        }
        i = i + 1;
    }
    None
}

/// The position of the first `://` in `s`.
fn first_authority_at(s: &[char]) -> (r: Option<usize>)
    ensures
        match r {
            Some(i) => find_authority(s@, 0) == Some(i as int),
            None => find_authority(s@, 0) is None,
        },
{
    let n = s.len();
    if n < 3 {
        return None;
    }
    let mut i: usize = 0;
    while i <= n - 3
        invariant
            n == s@.len(),
            n >= 3,
            find_authority(s@, 0) == find_authority(s@, i as int),
        decreases n - i,
    {
        if s[i] == ':' && s[i + 1] == '/' && s[i + 2] == '/' {
            return Some(i);
        }
        i = i + 1;
    }
    None
}

/// The schemes that are followed by `:` alone rather than `://`.
pub open spec fn schemes_without_authority() -> Seq<Seq<char>> {
    seq!["mailto"@, "doi"@, "tel"@, "urn"@, "arxiv"@]
}

/// Whether `scheme` is one of the schemes followed by `:` alone.
fn is_authorityless_scheme(scheme: &[char]) -> (r: bool)
    ensures
        r == schemes_without_authority().contains(scheme@),
{
    let names: Vec<&str> = vec!["mailto", "doi", "tel", "urn", "arxiv"];
    let ghost all = schemes_without_authority();
    assert(names@.map_values(|s: &str| s@) =~= all);
    let mut k: usize = 0;
    while k < names.len()
        invariant
            k <= names@.len(),
            names@.map_values(|s: &str| s@) == all,
            all == schemes_without_authority(),
            forall|j: int| 0 <= j < k ==> all[j] != scheme@,
        decreases names@.len() - k,
    {
        let name = str_chars(names[k]);
        if chars_eq(&name, scheme) {
            assert(all[k as int] == scheme@);
            return true;
        }
        k = k + 1;
    }
    false
}

/// Whether `s` starts with `www.`.
pub open spec fn starts_with_www(s: Seq<char>) -> bool {
    s.len() >= 4 && s[0] == 'w' && s[1] == 'w' && s[2] == 'w' && s[3] == '.'
}

/// Whether the lower-cased text `l` is a link: an address with a scheme and
/// `://`, one of the schemes written with `:` alone, an e-mail address, a host
/// followed by a path, or a `www.` host.
pub open spec fn link_text(l: Seq<char>) -> bool {
    match find_authority(l, 0) {
        Some(i) => url_scheme(l.subrange(0, i)) && i + 3 < l.len(),
        None => {
            let colon = find_char(l, ':', 0);
            if colon is Some && schemes_without_authority().contains(
                l.subrange(0, colon.unwrap()),
            ) {
                colon.unwrap() + 1 < l.len()
            } else if (match find_char(l, '@', 0) {
                Some(a) => a > 0 && (forall|k: int| 0 <= k < a ==> l[k] != '/') && dotted_host(
                    l.subrange(a + 1, l.len() as int),
                ),
                None => false,
            }) {
                true
            } else {
                match find_char(l, '/', 0) {
                    Some(s) => dotted_host(l.subrange(0, s)),
                    None => starts_with_www(l) && dotted_host(l),
                }
            }
        },
    }
}

/// Whether `token` is a link: a URL, or an email address.
///
/// Deliberately conservative about the form with no scheme. A bare
/// `example.com` is *not* recognised, because extraction that drops a space
/// leaves `sentence.Next` looking exactly like it. A path
/// (`doi.org/10.1000/182`) or a `www.` prefix is required instead — the forms
/// that cannot be an accident of a missing space.
fn is_link(token: &str) -> (r: bool)
    ensures
        r == link_text(lowercase_chars(token@)),
{
    let lower = to_lowercase(token);
    let l = str_chars(lower.as_str());
    let n = l.len();
    proof {
        lemma_find_authority(l@, 0);
        lemma_find_char(l@, ':', 0);
        lemma_find_char(l@, '@', 0);
        lemma_find_char(l@, '/', 0);
    }
    match first_authority_at(&l) {
        Some(i) => {
            let scheme = sub_chars(&l, 0, i);
            return is_url_scheme(&scheme) && i + 3 < n;
        },
        None => {},
    }
    match first_char_at(&l, ':') {
        Some(c) => {
            let scheme = sub_chars(&l, 0, c);
            if is_authorityless_scheme(&scheme) {
                return c + 1 < n;
            }
        },
        None => {},
    }
    match first_char_at(&l, '@') {
        Some(a) => {
            if a > 0 {
                let local = sub_chars(&l, 0, a);
                let slash = first_char_at(&local, '/');
                proof {
                    lemma_find_char(local@, '/', 0);
                }
                if slash.is_none() {
                    assert forall|k: int| 0 <= k < a implies l@[k] != '/' by {
                        assert(local@[k] == l@[k]);
                    }
                    let host = sub_chars(&l, a + 1, n);
                    if is_dotted_host(&host) {
                        return true;
                    }
                }
            }
        },
        None => {},
    }
    match first_char_at(&l, '/') {
        Some(s) => {
            let host = sub_chars(&l, 0, s);
            is_dotted_host(&host)
        },
        None => {
            let www = n >= 4 && l[0] == 'w' && l[1] == 'w' && l[2] == 'w' && l[3] == '.';
            www && is_dotted_host(&l)
        },
    }
}

/// [`find_authority`] finds the first `://` at or after `i`, or reports that
/// there is none.
pub proof fn lemma_find_authority(s: Seq<char>, i: int)
    requires
        0 <= i,
    ensures
        match find_authority(s, i) {
            Some(k) => i <= k && k + 3 <= s.len() && s[k] == ':' && s[k + 1] == '/' && s[k + 2]
                == '/',
            None => true,
        },
    decreases s.len() - i,
{
    if i + 3 <= s.len() && !(s[i] == ':' && s[i + 1] == '/' && s[i + 2] == '/') {
        lemma_find_authority(s, i + 1);
    }
}

/// [`find_char`] finds the first occurrence at or after `i`, or reports that
/// there is none.
pub proof fn lemma_find_char(s: Seq<char>, c: char, i: int)
    requires
        0 <= i,
    ensures
        match find_char(s, c, i) {
            Some(k) => i <= k < s.len() && s[k] == c && forall|j: int| i <= j < k ==> s[j] != c,
            None => forall|j: int| i <= j < s.len() ==> s[j] != c,
        },
    decreases s.len() - i,
{
    if i < s.len() && s[i] != c {
        lemma_find_char(s, c, i + 1);
    }
}

/// The first position from `lo` on that does not hold an opening bracket or
/// quote, stopping at `hi`.
pub open spec fn trim_openers(cs: Seq<char>, lo: int, hi: int) -> int
    decreases hi - lo,
{
    if lo < hi && spec_link_opener(cs[lo]) {
        trim_openers(cs, lo + 1, hi)
    } else {
        lo
    }
}

/// The last position from `hi` down, stopping at `lo`, that neither holds
/// trailing punctuation nor a closing bracket whose opener is absent from
/// `cs[lo..hi]`.
pub open spec fn trim_trailers(cs: Seq<char>, lo: int, hi: int) -> int
    decreases hi - lo,
{
    if hi > lo {
        if spec_link_trailer(cs[hi]) {
            trim_trailers(cs, lo, hi - 1)
        } else {
            match opener_of(cs[hi]) {
                Some(open) => if !cs.subrange(lo, hi).contains(open) {
                    trim_trailers(cs, lo, hi - 1)
                } else {
                    hi
                },
                None => hi,
            }
        }
    } else {
        hi
    }
}

/// The inclusive position range of the link inside the characters `cs`, if
/// they hold one.
pub open spec fn link_range(cs: Seq<char>) -> Option<(usize, usize)> {
    if cs.len() == 0 {
        None
    } else {
        let lo = trim_openers(cs, 0, cs.len() - 1);
        let hi = trim_trailers(cs, lo, cs.len() - 1);
        if link_text(lowercase_chars(cs.subrange(lo, hi + 1))) {
            Some((lo as usize, hi as usize))
        } else {
            None
        }
    }
}

/// Whether `c` occurs in `cs[lo..hi]`.
fn occurs_in(cs: &[char], lo: usize, hi: usize, c: char) -> (r: bool)
    requires
        lo <= hi <= cs@.len(),
    ensures
        r == cs@.subrange(lo as int, hi as int).contains(c),
{
    let mut k: usize = lo;
    while k < hi
        invariant
            lo <= k <= hi <= cs@.len(),
            forall|j: int| lo <= j < k ==> cs@[j] != c,
        decreases hi - k,
    {
        if cs[k] == c {
            assert(cs@.subrange(lo as int, hi as int)[k - lo] == c);
            return true;
        }
        k = k + 1;
    }
    proof {
        if cs@.subrange(lo as int, hi as int).contains(c) {
            let w = choose|w: int|
                0 <= w < hi - lo && #[trigger] cs@.subrange(lo as int, hi as int)[w] == c;
            assert(cs@[lo + w] == c);
        }
    }
    false
}

/// The inclusive char-index range of the link inside `token`, if it holds one.
///
/// The punctuation prose wraps a link in is trimmed off first, so
/// `(https://example.com/a),` yields just the address. A closing bracket the
/// link itself opened is kept: `…/Glob_(pattern)` ends with its own `)`.
pub fn link_span(token: &str) -> (r: Option<(usize, usize)>)
    ensures
        r == link_range(token@),
{
    let chars = str_chars(token);
    if chars.len() == 0 {
        return None;
    }
    let last = chars.len() - 1;
    let mut lo: usize = 0;
    while lo < last && is_link_opener(chars[lo])
        invariant
            chars@ == token@,
            last == chars@.len() - 1,
            lo <= last,
            trim_openers(chars@, lo as int, last as int) == trim_openers(chars@, 0, last as int),
        decreases last - lo,
    {
        lo = lo + 1;
    }
    assert(trim_openers(chars@, 0, last as int) == lo as int);
    let mut hi: usize = last;
    while hi > lo
        invariant
            chars@ == token@,
            last == chars@.len() - 1,
            lo <= hi <= last,
            trim_trailers(chars@, lo as int, hi as int) == trim_trailers(
                chars@,
                lo as int,
                last as int,
            ),
        ensures
            lo <= hi <= last,
            trim_trailers(chars@, lo as int, last as int) == hi as int,
        decreases hi,
    {
        let here = chars[hi];
        if is_link_trailer(here) {
            hi = hi - 1;
            continue;
        }
        match matching_opener(here) {
            Some(open) => {
                if !occurs_in(&chars, lo, hi, open) {
                    hi = hi - 1;
                } else {
                    break;
                }
            },
            None => {
                break;
            },
        }
    }
    let core_chars = sub_chars(&chars, lo, hi + 1);
    let core = string_of(&core_chars);
    if is_link(core.as_str()) {
        Some((lo, hi))
    } else {
        None
    }
}

/// Trimming openers stays within `lo..=hi`.
proof fn lemma_trim_openers_bounds(cs: Seq<char>, lo: int, hi: int)
    requires
        lo <= hi,
    ensures
        lo <= trim_openers(cs, lo, hi) <= hi,
    decreases hi - lo,
{
    if lo < hi && spec_link_opener(cs[lo]) {
        lemma_trim_openers_bounds(cs, lo + 1, hi);
    }
}

/// Trimming trailers stays within `lo..=hi`.
proof fn lemma_trim_trailers_bounds(cs: Seq<char>, lo: int, hi: int)
    requires
        lo <= hi,
    ensures
        lo <= trim_trailers(cs, lo, hi) <= hi,
    decreases hi - lo,
{
    if hi > lo {
        lemma_trim_trailers_bounds(cs, lo, hi - 1);
    }
}

/// A link found in `cs` is a non-empty range of its positions.
pub proof fn lemma_link_range_bounds(cs: Seq<char>)
    requires
        cs.len() <= usize::MAX,
    ensures
        match link_range(cs) {
            Some((lo, hi)) => lo <= hi < cs.len(),
            None => true,
        },
{
    if cs.len() > 0 {
        lemma_trim_openers_bounds(cs, 0, cs.len() - 1);
        let lo = trim_openers(cs, 0, cs.len() - 1);
        lemma_trim_trailers_bounds(cs, lo, cs.len() - 1);
    }
}


/// Every segment is a non-empty run of lines.
pub open spec fn segments_valid(segments: Seq<(usize, usize)>) -> bool {
    forall|k: int| 0 <= k < segments.len() ==> (#[trigger] segments[k]).0 <= segments[k].1
}

/// The pieces of segment `k` stand in `out` from `starts[k]` to just before
/// `starts[k + 1]`: they are the pieces it is cut into, running from its
/// first line to its last, each starting on the line after the previous one
/// ends.
pub open spec fn cut_in_place(
    segments: Seq<(usize, usize)>,
    objects: Seq<ContentObject>,
    out: Seq<(usize, usize)>,
    starts: Seq<int>,
) -> bool {
    &&& starts.len() == segments.len() + 1
    &&& starts[0] == 0
    &&& starts[segments.len() as int] == out.len()
    &&& forall|k: int| 0 <= k <= segments.len() ==> 0 <= #[trigger] starts[k] <= out.len()
    &&& forall|k: int|
        0 <= k < segments.len() ==> {
            &&& starts[k] < starts[k + 1]
            &&& #[trigger] out.subrange(starts[k], starts[k + 1]) == split_run(
                objects,
                segments[k].0 as int,
                segments[k].1 as int,
            )
            &&& out[starts[k]].0 == segments[k].0
            &&& out[starts[k + 1] - 1].1 == segments[k].1
        }
    &&& forall|k: int, j: int|
        #![trigger starts[k], out[j]]
        0 <= k < segments.len() && starts[k] <= j < starts[k + 1] - 1 ==> out[j].1 + 1 == out[j
            + 1].0
}

/// Cutting keeps each segment in its place: the output is the pieces of
/// every segment in turn.
#[verifier::rlimit(50)]
#[verifier::spinoff_prover]
proof fn lemma_split_all_in_place(segments: Seq<(usize, usize)>, objects: Seq<ContentObject>)
    requires
        segments_valid(segments),
    ensures
        exists|starts: Seq<int>| cut_in_place(segments, objects, split_all(segments, objects), starts),
    decreases segments.len(),
{
    let out = split_all(segments, objects);
    if segments.len() == 0 {
        assert(cut_in_place(segments, objects, out, seq![0int]));
    } else {
        let init = segments.drop_last();
        let last = segments.last();
        assert forall|k: int| 0 <= k < init.len() implies (#[trigger] init[k]).0 <= init[k].1 by {
            assert(init[k] == segments[k]);
        }
        lemma_split_all_in_place(init, objects);
        let prev = split_all(init, objects);
        let run = split_run(objects, last.0 as int, last.1 as int);
        assert(out == prev + run);
        let ps = choose|ps: Seq<int>| cut_in_place(init, objects, prev, ps);
        let starts = ps.push(out.len() as int);
        lemma_split_run_tiles(objects, last.0 as int, last.1 as int);
        assert(out.subrange(prev.len() as int, out.len() as int) =~= run);
        assert forall|k: int| 0 <= k <= segments.len() implies 0 <= #[trigger] starts[k] <= out.len() by {
            if k < segments.len() {
                assert(starts[k] == ps[k]);
            }
        }
        assert forall|k: int| 0 <= k < segments.len() implies {
            &&& starts[k] < starts[k + 1]
            &&& #[trigger] out.subrange(starts[k], starts[k + 1]) == split_run(
                objects,
                segments[k].0 as int,
                segments[k].1 as int,
            )
            &&& out[starts[k]].0 == segments[k].0
            &&& out[starts[k + 1] - 1].1 == segments[k].1
        } by {
            if k < init.len() {
                assert(segments[k] == init[k]);
                assert(0 <= ps[k] && ps[k + 1] <= prev.len());
                assert(prev.subrange(ps[k], ps[k + 1]) == split_run(
                    objects,
                    init[k].0 as int,
                    init[k].1 as int,
                ));
                assert(out.subrange(starts[k], starts[k + 1]) =~= prev.subrange(ps[k], ps[k + 1]));
                assert(out[starts[k]] == prev[ps[k]]);
                assert(out[starts[k + 1] - 1] == prev[ps[k + 1] - 1]);
            } else {
                assert(out[starts[k]] == run[0]);
                assert(out[starts[k + 1] - 1] == run[run.len() - 1]);
            }
        }
        assert forall|k: int, j: int|
            #![trigger starts[k], out[j]]
            0 <= k < segments.len() && starts[k] <= j < starts[k + 1] - 1 implies out[j].1 + 1
                == out[j + 1].0 by {
            if k < init.len() {
                assert(0 <= ps[k] && ps[k + 1] <= prev.len());
                assert(ps[k] == starts[k] && prev[j] == out[j] && prev[j + 1] == out[j + 1]);
            } else {
                let r = j - prev.len();
                assert(out[j] == run[r] && out[j + 1] == run[r + 1]);
            }
        }
        assert(cut_in_place(segments, objects, out, starts));
    }
}

/// Every piece of the output is a non-empty run of lines lying inside one
/// object or outside all of them, and an object lying within a segment is a
/// piece of its own.
#[verifier::rlimit(30)]
#[verifier::spinoff_prover]
proof fn lemma_split_all_pieces(segments: Seq<(usize, usize)>, objects: Seq<ContentObject>)
    requires
        segments_valid(segments),
        objects_disjoint(objects),
    ensures
        forall|i: int|
            0 <= i < split_all(segments, objects).len() ==> (#[trigger] split_all(
                segments,
                objects,
            )[i]).0 <= split_all(segments, objects)[i].1 && forall|o: int|
                0 <= o < objects.len() ==> respects_object(
                    split_all(segments, objects)[i],
                    #[trigger] objects[o],
                ),
        forall|k: int, o: int|
            0 <= k < segments.len() && 0 <= o < objects.len() && segments[k].0 <= (
            #[trigger] objects[o]).start_line && objects[o].start_line <= objects[o].end_line
                <= (#[trigger] segments[k]).1 ==> split_all(segments, objects).contains(
                (objects[o].start_line, objects[o].end_line),
            ),
    decreases segments.len(),
{
    let out = split_all(segments, objects);
    if segments.len() > 0 {
        let init = segments.drop_last();
        let last = segments.last();
        assert forall|k: int| 0 <= k < init.len() implies (#[trigger] init[k]).0 <= init[k].1 by {
            assert(init[k] == segments[k]);
        }
        lemma_split_all_pieces(init, objects);
        let prev = split_all(init, objects);
        let run = split_run(objects, last.0 as int, last.1 as int);
        assert(out == prev + run);
        lemma_split_run_respects_objects(objects, last.0 as int, last.1 as int);
        assert forall|i: int| 0 <= i < out.len() implies (#[trigger] out[i]).0 <= out[i].1
            && forall|o: int| 0 <= o < objects.len() ==> respects_object(out[i], #[trigger] objects[o]) by {
            if i >= prev.len() {
                assert(out[i] == run[i - prev.len()]);
            } else {
                assert(out[i] == prev[i]);
            }
        }
        assert forall|k: int, o: int|
            0 <= k < segments.len() && 0 <= o < objects.len() && segments[k].0 <= (
            #[trigger] objects[o]).start_line && objects[o].start_line <= objects[o].end_line
                <= (#[trigger] segments[k]).1 implies out.contains(
            (objects[o].start_line, objects[o].end_line),
        ) by {
            let target = (objects[o].start_line, objects[o].end_line);
            if k < init.len() {
                assert(segments[k] == init[k]);
                let w = choose|w: int| 0 <= w < prev.len() && prev[w] == target;
                assert(out[w] == prev[w]);
            } else {
                lemma_split_run_isolates_object(objects, last.0 as int, last.1 as int, o);
                let w = choose|w: int| 0 <= w < run.len() && run[w] == target;
                assert(out[prev.len() + w] == run[w]);
            }
        }
    }
}

/// The whole output of cutting: each segment is replaced, in place and in
/// order, by pieces that run from its first line to its last, each starting
/// on the line after the previous one ends; every piece is a non-empty run
/// of lines lying inside one object or outside all of them; and an object
/// lying within a segment is a piece of its own.
pub proof fn lemma_split_all_cuts_each_segment(
    segments: Seq<(usize, usize)>,
    objects: Seq<ContentObject>,
)
    requires
        segments_valid(segments),
        objects_disjoint(objects),
    ensures
        exists|starts: Seq<int>| cut_in_place(segments, objects, split_all(segments, objects), starts),
        forall|i: int|
            0 <= i < split_all(segments, objects).len() ==> (#[trigger] split_all(
                segments,
                objects,
            )[i]).0 <= split_all(segments, objects)[i].1 && forall|o: int|
                0 <= o < objects.len() ==> respects_object(
                    split_all(segments, objects)[i],
                    #[trigger] objects[o],
                ),
        forall|k: int, o: int|
            0 <= k < segments.len() && 0 <= o < objects.len() && segments[k].0 <= (
            #[trigger] objects[o]).start_line && objects[o].start_line <= objects[o].end_line
                <= (#[trigger] segments[k]).1 ==> split_all(segments, objects).contains(
                (objects[o].start_line, objects[o].end_line),
            ),
{
    lemma_split_all_in_place(segments, objects);
    lemma_split_all_pieces(segments, objects);
}

} // verus!
