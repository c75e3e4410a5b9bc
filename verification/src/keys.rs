//! Key chord and key sequence syntax.
//!
//! The textual key syntax is shared by the config file and the UI shell,
//! which encodes its key events into the same strings. It is Vim-inspired:
//!
//! - Plain printable characters bind themselves: `j`, `G`, `+`. Case
//!   matters; `G` means shift+g and is written as the upper-case char.
//! - Special keys use angle brackets: `<Esc>`, `<CR>`, `<Tab>`, `<Space>`,
//!   `<Up>`, `<Down>`, `<Left>`, `<Right>`, `<PageUp>`, `<PageDown>`,
//!   `<Home>`, `<End>`, `<BS>`.
//! - Modifiers go inside the brackets: `<C-d>` (ctrl), `<A-x>` (alt),
//!   `<C-A-d>` (both). Shift on letters is expressed by case: `<C-G>`.
//! - A literal `<` is written bracketed, `<<>` or `<C-<>`, because a bare
//!   `<` opens a bracket group.
//! - A *sequence* is a concatenation of chords: `gg`, `zw`, `g<C-d>`.

use vstd::prelude::*;
use vstd::string::StringExecFns;

use crate::text::{
    ascii_lower, ascii_lower_seq, chars_eq, debug_quote, debug_quoted, is_whitespace, owned,
    push_char, spec_is_whitespace, str_chars, string_of, sub_chars, to_ascii_lowercase,
};

verus! {

/// A non-character key.
#[derive(Debug, Clone, Copy, PartialEq, Eq, Hash, Structural)]
pub enum NamedKey {
    Escape,
    Enter,
    Tab,
    Space,
    Backspace,
    Up,
    Down,
    Left,
    Right,
    PageUp,
    PageDown,
    Home,
    End,
}

/// The key part of a chord: either a printable character or a named key.
#[derive(Debug, Clone, Copy, PartialEq, Eq, Hash, Structural)]
pub enum Key {
    Char(char),
    Named(NamedKey),
}

/// A single key press with modifiers.
///
/// Shift is intentionally absent: for characters it is encoded in the char
/// itself (`G` vs `g`), and named keys are matched shift-insensitively.
#[derive(Debug, Clone, Copy, PartialEq, Eq, Hash, Structural)]
pub struct Chord {
    pub key: Key,
    pub ctrl: bool,
    pub alt: bool,
}

/// Error describing why a key-sequence string could not be parsed.
#[derive(Debug, Clone, PartialEq, Eq)]
pub struct KeyParseError {
    pub sequence: String,
    pub message: String,
}

/// The text of a [`KeyParseError`]: the rejected sequence, quoted, and why.
pub open spec fn key_error_text(e: KeyParseError) -> Seq<char> {
    "invalid key sequence "@ + debug_quoted(e.sequence@) + ": "@ + e.message@
}

impl KeyParseError {
    /// The user-facing message: `invalid key sequence "<sequence>": <message>`.
    pub fn describe(&self) -> (r: String)
        ensures
            r@ == key_error_text(*self),
    {
        let mut r = owned("invalid key sequence ");
        let q = debug_quote(self.sequence.as_str());
        r.append(q.as_str());
        r.append(": ");
        r.append(self.message.as_str());
        r
    }
}

/// Why a key sequence was rejected; the message of a [`KeyParseError`] is
/// a function of this and of the rejected input.
pub enum ParseFailure {
    /// The input was empty.
    Empty,
    /// A `<` had no closing `>`.
    Unclosed,
    /// `<leader>` appeared where there is no leader to expand it to.
    LeaderNotAllowed,
    /// A white-space character appeared outside brackets.
    Whitespace,
    /// The bracket group (whose inside is given) named ctrl twice.
    DuplicateCtrl(Seq<char>),
    /// The bracket group (whose inside is given) named alt twice.
    DuplicateAlt(Seq<char>),
    /// What remained after the modifiers (first) is neither a single
    /// character nor a key name, in the bracket group given second.
    UnknownKey(Seq<char>, Seq<char>),
}

/// The bracketed token that stands for the configured leader key.
pub const LEADER_TOKEN: &'static str = "leader";

impl Chord {
    /// A plain character key with no modifiers.
    pub fn char(c: char) -> (r: Self)
        ensures
            r == (Chord { key: Key::Char(c), ctrl: false, alt: false }),
    {
        Self { key: Key::Char(c), ctrl: false, alt: false }
    }

    /// A named key with no modifiers.
    pub fn named(named: NamedKey) -> (r: Self)
        ensures
            r == (Chord { key: Key::Named(named), ctrl: false, alt: false }),
    {
        Self { key: Key::Named(named), ctrl: false, alt: false }
    }

    /// The chord written in the key syntax, such that parsing it back gives
    /// the chord (see [`lemma_display_round_trips`]).
    pub fn to_key_string(&self) -> (s: String)
        ensures
            s@ == chord_text(*self),
    {
        let needs_brackets = self.ctrl || self.alt || match self.key {
            Key::Named(_) => true,
            Key::Char(c) => c == '<',
        };
        let mut s = String::new();
        if needs_brackets {
            push_char(&mut s, '<');
            if self.ctrl {
                push_char(&mut s, 'C');
                push_char(&mut s, '-');
            }
            if self.alt {
                push_char(&mut s, 'A');
                push_char(&mut s, '-');
            }
        }
        match self.key {
            Key::Char(c) => push_char(&mut s, c),
            Key::Named(n) => s.append(n.canonical_name()),
        }
        if needs_brackets {
            push_char(&mut s, '>');
        }
        s
    }
}

/// Whether a chord is written inside angle brackets.
pub open spec fn needs_brackets(c: Chord) -> bool {
    c.ctrl || c.alt || match c.key {
        Key::Named(_) => true,
        Key::Char(ch) => ch == '<',
    }
}

/// The text of the key part of a chord.
pub open spec fn key_text(k: Key) -> Seq<char> {
    match k {
        Key::Char(c) => seq![c],
        Key::Named(n) => canonical_name_chars(n),
    }
}

/// The key-syntax text of a chord.
pub open spec fn chord_text(c: Chord) -> Seq<char> {
    if needs_brackets(c) {
        seq!['<'] + (if c.ctrl { seq!['C', '-'] } else { Seq::empty() }) + (if c.alt {
            seq!['A', '-']
        } else {
            Seq::empty()
        }) + key_text(c.key) + seq!['>']
    } else {
        key_text(c.key)
    }
}

/// The key-syntax text of a chord sequence: the chords' texts, concatenated.
pub open spec fn sequence_text(cs: Seq<Chord>) -> Seq<char>
    decreases cs.len(),
{
    if cs.len() == 0 {
        Seq::empty()
    } else {
        chord_text(cs[0]) + sequence_text(cs.skip(1))
    }
}

/// The canonical spelling of a named key.
pub open spec fn canonical_name_chars(n: NamedKey) -> Seq<char> {
    match n {
        NamedKey::Escape => seq!['E', 's', 'c'],
        NamedKey::Enter => seq!['C', 'R'],
        NamedKey::Tab => seq!['T', 'a', 'b'],
        NamedKey::Space => seq!['S', 'p', 'a', 'c', 'e'],
        NamedKey::Backspace => seq!['B', 'S'],
        NamedKey::Up => seq!['U', 'p'],
        NamedKey::Down => seq!['D', 'o', 'w', 'n'],
        NamedKey::Left => seq!['L', 'e', 'f', 't'],
        NamedKey::Right => seq!['R', 'i', 'g', 'h', 't'],
        NamedKey::PageUp => seq!['P', 'a', 'g', 'e', 'U', 'p'],
        NamedKey::PageDown => seq!['P', 'a', 'g', 'e', 'D', 'o', 'w', 'n'],
        NamedKey::Home => seq!['H', 'o', 'm', 'e'],
        NamedKey::End => seq!['E', 'n', 'd'],
    }
}

/// The named key a lower-cased name stands for, if any.
pub open spec fn named_key_of(lower: Seq<char>) -> Option<NamedKey> {
    if lower == seq!['e', 's', 'c'] || lower == seq!['e', 's', 'c', 'a', 'p', 'e'] {
        Some(NamedKey::Escape)
    } else if lower == seq!['c', 'r'] || lower == seq!['e', 'n', 't', 'e', 'r'] || lower
        == seq!['r', 'e', 't', 'u', 'r', 'n'] {
        Some(NamedKey::Enter)
    } else if lower == seq!['t', 'a', 'b'] {
        Some(NamedKey::Tab)
    } else if lower == seq!['s', 'p', 'a', 'c', 'e'] {
        Some(NamedKey::Space)
    } else if lower == seq!['b', 's'] || lower == seq![
        'b',
        'a',
        'c',
        'k',
        's',
        'p',
        'a',
        'c',
        'e',
    ] {
        Some(NamedKey::Backspace)
    } else if lower == seq!['u', 'p'] {
        Some(NamedKey::Up)
    } else if lower == seq!['d', 'o', 'w', 'n'] {
        Some(NamedKey::Down)
    } else if lower == seq!['l', 'e', 'f', 't'] {
        Some(NamedKey::Left)
    } else if lower == seq!['r', 'i', 'g', 'h', 't'] {
        Some(NamedKey::Right)
    } else if lower == seq!['p', 'a', 'g', 'e', 'u', 'p'] {
        Some(NamedKey::PageUp)
    } else if lower == seq!['p', 'a', 'g', 'e', 'd', 'o', 'w', 'n'] {
        Some(NamedKey::PageDown)
    } else if lower == seq!['h', 'o', 'm', 'e'] {
        Some(NamedKey::Home)
    } else if lower == seq!['e', 'n', 'd'] {
        Some(NamedKey::End)
    } else {
        None
    }
}

impl NamedKey {
    /// The named key `name` stands for, ignoring ASCII case.
    fn parse(name: &[char]) -> (r: Option<Self>)
        ensures
            r == named_key_of(ascii_lower_seq(name@)),
    {
        let mut lower: Vec<char> = Vec::new();
        let mut i: usize = 0;
        while i < name.len()
            invariant
                i <= name@.len(),
                lower@ == ascii_lower_seq(name@.take(i as int)),
            decreases name@.len() - i,
        {
            lower.push(to_ascii_lowercase(name[i]));
            i = i + 1;
            assert(ascii_lower_seq(name@.take(i as int)) =~= ascii_lower_seq(
                name@.take((i - 1) as int),
            ).push(ascii_lower(name@[i - 1])));
        }
        assert(name@.take(name@.len() as int) =~= name@);
        let l = lower.as_slice();
        if chars_eq(l, &['e', 's', 'c']) || chars_eq(l, &['e', 's', 'c', 'a', 'p', 'e']) {
            Some(Self::Escape)
        } else if chars_eq(l, &['c', 'r']) || chars_eq(l, &['e', 'n', 't', 'e', 'r']) || chars_eq(
            l,
            &['r', 'e', 't', 'u', 'r', 'n'],
        ) {
            Some(Self::Enter)
        } else if chars_eq(l, &['t', 'a', 'b']) {
            Some(Self::Tab)
        } else if chars_eq(l, &['s', 'p', 'a', 'c', 'e']) {
            Some(Self::Space)
        } else if chars_eq(l, &['b', 's']) || chars_eq(
            l,
            &['b', 'a', 'c', 'k', 's', 'p', 'a', 'c', 'e'],
        ) {
            Some(Self::Backspace)
        } else if chars_eq(l, &['u', 'p']) {
            Some(Self::Up)
        } else if chars_eq(l, &['d', 'o', 'w', 'n']) {
            Some(Self::Down)
        } else if chars_eq(l, &['l', 'e', 'f', 't']) {
            Some(Self::Left)
        } else if chars_eq(l, &['r', 'i', 'g', 'h', 't']) {
            Some(Self::Right)
        } else if chars_eq(l, &['p', 'a', 'g', 'e', 'u', 'p']) {
            Some(Self::PageUp)
        } else if chars_eq(l, &['p', 'a', 'g', 'e', 'd', 'o', 'w', 'n']) {
            Some(Self::PageDown)
        } else if chars_eq(l, &['h', 'o', 'm', 'e']) {
            Some(Self::Home)
        } else if chars_eq(l, &['e', 'n', 'd']) {
            Some(Self::End)
        } else {
            None
        }
    }

    /// The canonical spelling of the key, as written inside brackets.
    fn canonical_name(self) -> (s: &'static str)
        ensures
            s@ == canonical_name_chars(self),
    {
        match self {
            Self::Escape => {
                proof {
                    reveal_strlit("Esc");
                }
                "Esc"
            },
            Self::Enter => {
                proof {
                    reveal_strlit("CR");
                }
                "CR"
            },
            Self::Tab => {
                proof {
                    reveal_strlit("Tab");
                }
                "Tab"
            },
            Self::Space => {
                proof {
                    reveal_strlit("Space");
                }
                "Space"
            },
            Self::Backspace => {
                proof {
                    reveal_strlit("BS");
                }
                "BS"
            },
            Self::Up => {
                proof {
                    reveal_strlit("Up");
                }
                "Up"
            },
            Self::Down => {
                proof {
                    reveal_strlit("Down");
                }
                "Down"
            },
            Self::Left => {
                proof {
                    reveal_strlit("Left");
                }
                "Left"
            },
            Self::Right => {
                proof {
                    reveal_strlit("Right");
                }
                "Right"
            },
            Self::PageUp => {
                proof {
                    reveal_strlit("PageUp");
                }
                "PageUp"
            },
            Self::PageDown => {
                proof {
                    reveal_strlit("PageDown");
                }
                "PageDown"
            },
            Self::Home => {
                proof {
                    reveal_strlit("Home");
                }
                "Home"
            },
            Self::End => {
                proof {
                    reveal_strlit("End");
                }
                "End"
            },
        }
    }
}


/// Prefix a successful parse with `p`; failures pass through unchanged.
pub open spec fn prepend(p: Seq<Chord>, r: Result<Seq<Chord>, ParseFailure>) -> Result<
    Seq<Chord>,
    ParseFailure,
> {
    match r {
        Ok(cs) => Ok(p + cs),
        Err(f) => Err(f),
    }
}

/// Index of the first `>` in `s` at or after `j`.
pub open spec fn first_close(s: Seq<char>, j: int) -> Option<int>
    decreases s.len() - j,
{
    if j < 0 || j >= s.len() {
        None
    } else if s[j] == '>' {
        Some(j)
    } else {
        first_close(s, j + 1)
    }
}

/// A found `>` lies at or after the position the search started from.
pub proof fn lemma_first_close_bounds(s: Seq<char>, j: int)
    ensures
        first_close(s, j) matches Some(k) ==> j <= k < s.len() && s[k] == '>' && forall|m: int|
            j <= m < k ==> s[m] != '>',
        first_close(s, j) is None ==> forall|m: int| 0 <= j <= m < s.len() ==> s[m] != '>',
    decreases s.len() - j,
{
    if j < 0 || j >= s.len() {
    } else if s[j] == '>' {
    } else {
        lemma_first_close_bounds(s, j + 1);
    }
}

/// Whether a bracket group's inside is the leader token, in any case.
pub open spec fn is_leader_token(inner: Seq<char>) -> bool {
    ascii_lower_seq(inner) == seq!['l', 'e', 'a', 'd', 'e', 'r']
}

/// Whether `rest` starts with the modifier prefix `<upper>-` or `<lower>-`.
pub open spec fn starts_with_modifier(rest: Seq<char>, upper: char, lower: char) -> bool {
    rest.len() >= 2 && (rest[0] == upper || rest[0] == lower) && rest[1] == '-'
}

/// The chord a bracket group's inside stands for: modifiers `C-`/`A-` (either
/// case, in any order, each at most once) then a single character or a key
/// name. `rest` is what is left of `inner` after the modifiers seen so far.
pub open spec fn bracketed(rest: Seq<char>, inner: Seq<char>, ctrl: bool, alt: bool) -> Result<
    Chord,
    ParseFailure,
>
    decreases rest.len(),
{
    if starts_with_modifier(rest, 'C', 'c') {
        if ctrl {
            Err(ParseFailure::DuplicateCtrl(inner))
        } else {
            bracketed(rest.skip(2), inner, true, alt)
        }
    } else if starts_with_modifier(rest, 'A', 'a') {
        if alt {
            Err(ParseFailure::DuplicateAlt(inner))
        } else {
            bracketed(rest.skip(2), inner, ctrl, true)
        }
    } else if rest.len() == 1 {
        Ok(Chord { key: Key::Char(rest[0]), ctrl, alt })
    } else {
        match named_key_of(ascii_lower_seq(rest)) {
            Some(n) => Ok(Chord { key: Key::Named(n), ctrl, alt }),
            None => Err(ParseFailure::UnknownKey(rest, inner)),
        }
    }
}

/// The chords of `s` from position `i` on, or why they are not a valid
/// sequence. `leader` is what `<leader>` expands to, if it is allowed.
pub open spec fn parse_from(s: Seq<char>, i: int, leader: Option<Seq<Chord>>) -> Result<
    Seq<Chord>,
    ParseFailure,
>
    decreases s.len() - i,
{
    if i < 0 || i >= s.len() {
        Ok(Seq::empty())
    } else if s[i] == '<' {
        match first_close(s, i + 1) {
            None => Err(ParseFailure::Unclosed),
            Some(j) => {
                proof {
                    lemma_first_close_bounds(s, i + 1);
                }
                let inner = s.subrange(i + 1, j);
                if is_leader_token(inner) {
                    match leader {
                        Some(l) => prepend(l, parse_from(s, j + 1, leader)),
                        None => Err(ParseFailure::LeaderNotAllowed),
                    }
                } else {
                    match bracketed(inner, inner, false, false) {
                        Ok(c) => prepend(seq![c], parse_from(s, j + 1, leader)),
                        Err(f) => Err(f),
                    }
                }
            },
        }
    } else if spec_is_whitespace(s[i]) {
        Err(ParseFailure::Whitespace)
    } else {
        prepend(seq![Chord { key: Key::Char(s[i]), ctrl: false, alt: false }], parse_from(s, i + 1, leader))
    }
}

/// The chords a whole key-sequence string stands for, or why it is invalid.
pub open spec fn parse_chars(s: Seq<char>, leader: Option<Seq<Chord>>) -> Result<
    Seq<Chord>,
    ParseFailure,
> {
    if s.len() == 0 {
        Err(ParseFailure::Empty)
    } else {
        parse_from(s, 0, leader)
    }
}

/// The message reported for a rejected key sequence.
pub open spec fn failure_message(f: ParseFailure, input: Seq<char>) -> Seq<char> {
    match f {
        ParseFailure::Empty => "empty key sequence"@,
        ParseFailure::Unclosed => "unclosed '<' before end of "@ + debug_quoted(input),
        ParseFailure::LeaderNotAllowed => LEADER_MESSAGE@,
        ParseFailure::Whitespace => "whitespace is not allowed in key sequences"@,
        ParseFailure::DuplicateCtrl(inner) => "duplicate ctrl modifier in <"@ + inner + ">"@,
        ParseFailure::DuplicateAlt(inner) => "duplicate alt modifier in <"@ + inner + ">"@,
        ParseFailure::UnknownKey(rest, inner) => "unknown key name "@ + debug_quoted(rest)
            + " in <"@ + inner + UNKNOWN_KEY_TAIL@,
    }
}

/// Why `<leader>` is refused where no leader can be expanded.
pub const LEADER_MESSAGE: &'static str =
    "<leader> is only allowed in keybindings; set the leader itself with [input] leader";

/// The list of accepted key names closing an unknown-key message.
pub const UNKNOWN_KEY_TAIL: &'static str =
    "> (expected a single character or one of Esc, CR, Tab, Space, BS, Up, Down, Left, Right, PageUp, PageDown, Home, End)";

/// The outcome `parse_sequence_inner` owes for a given input and leader.
pub open spec fn parse_result_matches(
    r: Result<Vec<Chord>, KeyParseError>,
    input: Seq<char>,
    leader: Option<Seq<Chord>>,
) -> bool {
    match parse_chars(input, leader) {
        Ok(cs) => r matches Ok(v) && v@ == cs,
        Err(f) => r matches Err(e) && e.sequence@ == input && e.message@ == failure_message(
            f,
            input,
        ),
    }
}

/// Parse a full key sequence such as `gg` or `g<C-d>`. Counts (`5j`) are
/// runtime input, not part of a binding.
///
/// `<leader>` is *not* accepted here, because there is no leader to expand it
/// to; [`parse_sequence_with_leader`] is for bindings. That is also what
/// stops a leader defined as `<leader>` from recursing: the leader itself is
/// parsed with this function.
pub fn parse_sequence(input: &str) -> (r: Result<Vec<Chord>, KeyParseError>)
    ensures
        parse_result_matches(r, input@, None),
{
    parse_sequence_inner(input, None)
}

/// Parse a key sequence in which `<leader>` (any capitalisation) stands for
/// `leader`, the configured leader chords. The expansion is a splice: once
/// bound, `<leader>w` is an ordinary sequence.
pub fn parse_sequence_with_leader(input: &str, leader: &[Chord]) -> (r: Result<
    Vec<Chord>,
    KeyParseError,
>)
    ensures
        parse_result_matches(r, input@, Some(leader@)),
{
    parse_sequence_inner(input, Some(leader))
}

/// The view of an optional leader.
pub open spec fn leader_view(leader: Option<&[Chord]>) -> Option<Seq<Chord>> {
    match leader {
        Some(l) => Some(l@),
        None => None,
    }
}

/// Append the characters of `cs` to `s`.
fn push_chars(s: &mut String, cs: &[char])
    ensures
        final(s)@ == old(s)@ + cs@,
{
    let mut k: usize = 0;
    while k < cs.len()
        invariant
            k <= cs@.len(),
            s@ == old(s)@ + cs@.take(k as int),
        decreases cs@.len() - k,
    {
        push_char(s, cs[k]);
        k = k + 1;
        assert(s@ =~= old(s)@ + cs@.take(k as int));
    }
    assert(cs@.take(cs@.len() as int) =~= cs@);
}

/// Whether `inner` is the leader token, ignoring ASCII case.
fn is_leader(inner: &[char]) -> (r: bool)
    ensures
        r == is_leader_token(inner@),
{
    if inner.len() != 6 {
        assert(ascii_lower_seq(inner@).len() != 6);
        return false;
    }
    let expected = ['l', 'e', 'a', 'd', 'e', 'r'];
    let mut k: usize = 0;
    while k < 6
        invariant
            inner@.len() == 6,
            k <= 6,
            expected@ == seq!['l', 'e', 'a', 'd', 'e', 'r'],
            forall|m: int| 0 <= m < k ==> ascii_lower(inner@[m]) == expected@[m],
        decreases 6 - k,
    {
        if to_ascii_lowercase(inner[k]) != expected[k] {
            assert(ascii_lower_seq(inner@)[k as int] != seq!['l', 'e', 'a', 'd', 'e', 'r'][k as int]);
            return false;
        }
        k = k + 1;
    }
    assert(ascii_lower_seq(inner@) =~= expected@);
    true
}

fn parse_sequence_inner(input: &str, leader: Option<&[Chord]>) -> (r: Result<
    Vec<Chord>,
    KeyParseError,
>)
    ensures
        parse_result_matches(r, input@, leader_view(leader)),
{
    let ghost lv = leader_view(leader);
    let cs = str_chars(input);
    if cs.len() == 0 {
        return Err(KeyParseError { sequence: owned(input), message: owned("empty key sequence") });
    }
    let mut chords: Vec<Chord> = Vec::new();
    let mut i: usize = 0;
    while i < cs.len()
        invariant
            cs@ == input@,
            cs@.len() > 0,
            lv == leader_view(leader),
            i <= cs@.len(),
            parse_from(cs@, 0, lv) == prepend(chords@, parse_from(cs@, i as int, lv)),
        decreases cs@.len() - i,
    {
        let c = cs[i];
        if c == '<' {
            let mut j = i + 1;
            while j < cs.len() && cs[j] != '>'
                invariant
                    i < j <= cs@.len(),
                    first_close(cs@, (i + 1) as int) == first_close(cs@, j as int),
                decreases cs@.len() - j,
            {
                j = j + 1;
            }
            if j == cs.len() {
                let mut message = owned("unclosed '<' before end of ");
                let quoted = debug_quote(input);
                message.append(quoted.as_str());
                return Err(KeyParseError { sequence: owned(input), message });
            }
            assert(first_close(cs@, j as int) == Some(j as int));
            let inner = sub_chars(&cs, i + 1, j);
            if is_leader(&inner) {
                match leader {
                    Some(l) => {
                        let ghost before = chords@;
                        let mut k: usize = 0;
                        while k < l.len()
                            invariant
                                k <= l@.len(),
                                chords@ == before + l@.take(k as int),
                            decreases l@.len() - k,
                        {
                            chords.push(l[k]);
                            k = k + 1;
                            assert(chords@ =~= before + l@.take(k as int));
                        }
                        assert(l@.take(l@.len() as int) =~= l@);
                        assert(before + l@ + parse_from(cs@, j + 1, lv)->Ok_0 =~= before + (l@
                            + parse_from(cs@, j + 1, lv)->Ok_0));
                    },
                    None => {
                        return Err(
                            KeyParseError { sequence: owned(input), message: owned(LEADER_MESSAGE) },
                        );
                    },
                }
            } else {
                match parse_bracketed(&inner) {
                    Ok(ch) => {
                        let ghost before = chords@;
                        chords.push(ch);
                        assert(before.push(ch) + parse_from(cs@, j + 1, lv)->Ok_0 =~= before + (
                        seq![ch] + parse_from(cs@, j + 1, lv)->Ok_0));
                    },
                    Err(message) => {
                        proof {
                            lemma_bracketed_failures(inner@, inner@, false, false);
                        }
                        return Err(KeyParseError { sequence: owned(input), message });
                    },
                }
            }
            i = j + 1;
        } else if is_whitespace(c) {
            return Err(
                KeyParseError {
                    sequence: owned(input),
                    message: owned("whitespace is not allowed in key sequences"),
                },
            );
        } else {
            let ghost before = chords@;
            let ch = Chord::char(c);
            chords.push(ch);
            assert(before.push(ch) + parse_from(cs@, i + 1, lv)->Ok_0 =~= before + (seq![ch]
                + parse_from(cs@, i + 1, lv)->Ok_0));
            i = i + 1;
        }
    }
    assert(chords@ + Seq::<Chord>::empty() =~= chords@);
    Ok(chords)
}

/// The result `parse_bracketed` owes for the inside of a bracket group.
pub open spec fn bracketed_result_matches(r: Result<Chord, String>, inner: Seq<char>) -> bool {
    match bracketed(inner, inner, false, false) {
        Ok(c) => r == Ok::<Chord, String>(c),
        Err(f) => r matches Err(m) && m@ == failure_message(f, Seq::empty()),
    }
}

/// A bracket group only ever fails for a reason of its own, whose message
/// does not mention the surrounding input.
pub proof fn lemma_bracketed_failures(rest: Seq<char>, inner: Seq<char>, ctrl: bool, alt: bool)
    ensures
        bracketed(rest, inner, ctrl, alt) matches Err(f) ==> (f is DuplicateCtrl
            || f is DuplicateAlt || f is UnknownKey),
    decreases rest.len(),
{
    if starts_with_modifier(rest, 'C', 'c') {
        if !ctrl {
            lemma_bracketed_failures(rest.skip(2), inner, true, alt);
        }
    } else if starts_with_modifier(rest, 'A', 'a') {
        if !alt {
            lemma_bracketed_failures(rest.skip(2), inner, ctrl, true);
        }
    }
}

/// Parse the inside of a `<...>` group, e.g. `C-d`, `Esc`, `C-A-Left`.
fn parse_bracketed(inner: &[char]) -> (r: Result<Chord, String>)
    ensures
        bracketed_result_matches(r, inner@),
{
    let mut ctrl = false;
    let mut alt = false;
    let mut k: usize = 0;
    let n = inner.len();
    assert(inner@.skip(0) =~= inner@);
    loop
        invariant
            n == inner@.len(),
            k <= n,
            bracketed(inner@, inner@, false, false) == bracketed(
                inner@.skip(k as int),
                inner@,
                ctrl,
                alt,
            ),
        ensures
            k <= n,
            !starts_with_modifier(inner@.skip(k as int), 'C', 'c'),
            !starts_with_modifier(inner@.skip(k as int), 'A', 'a'),
            bracketed(inner@, inner@, false, false) == bracketed(
                inner@.skip(k as int),
                inner@,
                ctrl,
                alt,
            ),
        decreases n - k,
    {
        let ghost rest = inner@.skip(k as int);
        if n - k >= 2 && (inner[k] == 'C' || inner[k] == 'c') && inner[k + 1] == '-' {
            assert(starts_with_modifier(rest, 'C', 'c'));
            if ctrl {
                let mut m = owned("duplicate ctrl modifier in <");
                push_chars(&mut m, inner);
                m.append(">");
                return Err(m);
            }
            ctrl = true;
            assert(rest.skip(2) =~= inner@.skip(k + 2));
            k = k + 2;
        } else if n - k >= 2 && (inner[k] == 'A' || inner[k] == 'a') && inner[k + 1] == '-' {
            assert(!starts_with_modifier(rest, 'C', 'c'));
            assert(starts_with_modifier(rest, 'A', 'a'));
            if alt {
                let mut m = owned("duplicate alt modifier in <");
                push_chars(&mut m, inner);
                m.append(">");
                return Err(m);
            }
            alt = true;
            assert(rest.skip(2) =~= inner@.skip(k + 2));
            k = k + 2;
        } else {
            assert(!starts_with_modifier(rest, 'C', 'c'));
            assert(!starts_with_modifier(rest, 'A', 'a'));
            break;
        }
    }
    let rest = sub_chars(inner, k, n);
    assert(rest@ =~= inner@.skip(k as int));
    if rest.len() == 1 {
        return Ok(Chord { key: Key::Char(rest[0]), ctrl, alt });
    }
    match NamedKey::parse(&rest) {
        Some(named) => Ok(Chord { key: Key::Named(named), ctrl, alt }),
        None => {
            let mut m = owned("unknown key name ");
            let rest_string = string_of(&rest);
            let quoted = debug_quote(rest_string.as_str());
            m.append(quoted.as_str());
            m.append(" in <");
            push_chars(&mut m, inner);
            m.append(UNKNOWN_KEY_TAIL);
            Err(m)
        },
    }
}

/// Whether a chord can be written in the key syntax at all. A bare white-space
/// character is refused outside brackets, and a `>` inside brackets would
/// close the group early; every other chord has a spelling.
pub open spec fn has_spelling(c: Chord) -> bool {
    match c.key {
        Key::Char(ch) => if needs_brackets(c) {
            ch != '>'
        } else {
            !spec_is_whitespace(ch)
        },
        Key::Named(_) => true,
    }
}

/// A canonical key name reads back as its key, and is neither a single
/// character, a modifier prefix, nor holds a `>`.
proof fn lemma_named_round_trip(n: NamedKey)
    ensures
        named_key_of(ascii_lower_seq(canonical_name_chars(n))) == Some(n),
        canonical_name_chars(n).len() >= 2,
        !starts_with_modifier(canonical_name_chars(n), 'C', 'c'),
        !starts_with_modifier(canonical_name_chars(n), 'A', 'a'),
        forall|k: int|
            0 <= k < canonical_name_chars(n).len() ==> canonical_name_chars(n)[k] != '>',
        !is_leader_token(canonical_name_chars(n)),
{
    match n {
        NamedKey::Escape => {
            assert(ascii_lower_seq(canonical_name_chars(n)) =~= seq!['e', 's', 'c']);
        },
        NamedKey::Enter => {
            assert(ascii_lower_seq(canonical_name_chars(n)) =~= seq!['c', 'r']);
        },
        NamedKey::Tab => {
            assert(ascii_lower_seq(canonical_name_chars(n)) =~= seq!['t', 'a', 'b']);
        },
        NamedKey::Space => {
            assert(ascii_lower_seq(canonical_name_chars(n)) =~= seq!['s', 'p', 'a', 'c', 'e']);
        },
        NamedKey::Backspace => {
            assert(ascii_lower_seq(canonical_name_chars(n)) =~= seq!['b', 's']);
        },
        NamedKey::Up => {
            assert(ascii_lower_seq(canonical_name_chars(n)) =~= seq!['u', 'p']);
        },
        NamedKey::Down => {
            assert(ascii_lower_seq(canonical_name_chars(n)) =~= seq!['d', 'o', 'w', 'n']);
        },
        NamedKey::Left => {
            assert(ascii_lower_seq(canonical_name_chars(n)) =~= seq!['l', 'e', 'f', 't']);
        },
        NamedKey::Right => {
            assert(ascii_lower_seq(canonical_name_chars(n)) =~= seq!['r', 'i', 'g', 'h', 't']);
        },
        NamedKey::PageUp => {
            assert(ascii_lower_seq(canonical_name_chars(n)) =~= seq!['p', 'a', 'g', 'e', 'u', 'p']);
        },
        NamedKey::PageDown => {
            assert(ascii_lower_seq(canonical_name_chars(n)) =~= seq!['p', 'a', 'g', 'e', 'd', 'o', 'w', 'n']);
        },
        NamedKey::Home => {
            assert(ascii_lower_seq(canonical_name_chars(n)) =~= seq!['h', 'o', 'm', 'e']);
        },
        NamedKey::End => {
            assert(ascii_lower_seq(canonical_name_chars(n)) =~= seq!['e', 'n', 'd']);
        },
    }
}

/// `first_close` looks only at what follows the start position.
proof fn lemma_first_close_shift(a: Seq<char>, b: Seq<char>, j: int)
    requires
        0 <= j,
    ensures
        first_close(a + b, a.len() + j) == (match first_close(b, j) {
            Some(k) => Some(a.len() + k),
            None => None::<int>,
        }),
    decreases b.len() - j,
{
    if j < b.len() && b[j] != '>' {
        lemma_first_close_shift(a, b, j + 1);
    }
}

/// Parsing from a position only looks at what follows it.
proof fn lemma_parse_shift(a: Seq<char>, b: Seq<char>, i: int, leader: Option<Seq<Chord>>)
    requires
        0 <= i,
    ensures
        parse_from(a + b, a.len() + i, leader) == parse_from(b, i, leader),
    decreases b.len() - i,
{
    let s = a + b;
    if i < b.len() {
        assert(s[a.len() + i] == b[i]);
        if b[i] == '<' {
            lemma_first_close_shift(a, b, i + 1);
            lemma_first_close_bounds(b, i + 1);
            match first_close(b, i + 1) {
                Some(j) => {
                    assert(s.subrange(a.len() + i + 1, a.len() + j) =~= b.subrange(i + 1, j));
                    lemma_parse_shift(a, b, j + 1, leader);
                },
                None => {},
            }
        } else if !spec_is_whitespace(b[i]) {
            lemma_parse_shift(a, b, i + 1, leader);
        }
    }
}

/// A chord's text, followed by anything, parses to the chord followed by
/// whatever the rest parses to.
proof fn lemma_chord_round_trip(c: Chord, rest: Seq<char>, leader: Option<Seq<Chord>>)
    requires
        has_spelling(c),
    ensures
        parse_from(chord_text(c) + rest, 0, leader) == prepend(
            seq![c],
            parse_from(rest, 0, leader),
        ),
{
    let t = chord_text(c);
    let s = t + rest;
    lemma_parse_shift(t, rest, 0, leader);
    if !needs_brackets(c) {
        let ch = c.key->Char_0;
        assert(s[0] == ch);
        assert(c == Chord { key: Key::Char(ch), ctrl: false, alt: false });
        assert(t.len() == 1);
        assert(parse_from(s, 0, leader) == prepend(seq![c], parse_from(s, 1, leader)));
    } else {
        let mods = (if c.ctrl { seq!['C', '-'] } else { Seq::empty() }) + (if c.alt {
            seq!['A', '-']
        } else {
            Seq::empty()
        });
        let kt = key_text(c.key);
        let inner = mods + kt;
        assert(t =~= seq!['<'] + inner + seq!['>']);
        assert(s[0] == '<');
        match c.key {
            Key::Named(n) => {
                lemma_named_round_trip(n);
            },
            Key::Char(ch) => {},
        }
        assert forall|k: int| 0 <= k < inner.len() implies inner[k] != '>' by {
            if k >= mods.len() {
                assert(inner[k] == kt[k - mods.len()]);
            }
        }
        assert forall|m: int| 1 <= m < t.len() - 1 implies s[m] != '>' by {
            assert(s[m] == inner[m - 1]);
        }
        assert(s[t.len() - 1] == '>');
        first_close_finds(s, 1, t.len() - 1);
        assert(s.subrange(1, t.len() - 1) =~= inner);
        // Not the leader token: a modifier starts it, or it is a key's own text.
        if c.ctrl {
            assert(ascii_lower_seq(inner)[0] == 'c');
        } else if c.alt {
            assert(ascii_lower_seq(inner)[0] == 'a');
        } else {
            assert(inner =~= kt);
            if let Key::Char(ch) = c.key {
                assert(ascii_lower_seq(inner).len() == 1);
            }
        }
        // The modifiers strip off in order, leaving the key's own text.
        if c.ctrl {
            assert(starts_with_modifier(inner, 'C', 'c'));
            assert(inner.skip(2) =~= (if c.alt {
                seq!['A', '-']
            } else {
                Seq::empty()
            }) + kt);
        }
        if c.alt {
            let after_ctrl = seq!['A', '-'] + kt;
            assert(starts_with_modifier(after_ctrl, 'A', 'a'));
            if !c.ctrl {
                assert(inner =~= after_ctrl);
                assert(!starts_with_modifier(inner, 'C', 'c'));
            }
            assert(after_ctrl.skip(2) =~= kt);
        }
        match c.key {
            Key::Named(n) => {},
            Key::Char(ch) => {
                assert(kt.len() == 1);
            },
        }
        assert(!is_leader_token(inner));
        let a1 = if c.ctrl { inner.skip(2) } else { inner };
        let a2 = if c.alt { a1.skip(2) } else { a1 };
        assert(a1 =~= (if c.alt { seq!['A', '-'] } else { Seq::empty() }) + kt);
        assert(a2 =~= kt);
        if !c.ctrl {
            if c.alt {
                assert(!starts_with_modifier(inner, 'C', 'c'));
            } else {
                assert(inner =~= kt);
            }
        }
        assert(bracketed(inner, inner, false, false) == bracketed(a1, inner, c.ctrl, false));
        if !c.alt {
            assert(!starts_with_modifier(a1, 'C', 'c'));
            assert(!starts_with_modifier(a1, 'A', 'a'));
        } else {
            assert(!starts_with_modifier(a1, 'C', 'c'));
        }
        assert(bracketed(a1, inner, c.ctrl, false) == bracketed(a2, inner, c.ctrl, c.alt));
        assert(!starts_with_modifier(a2, 'C', 'c'));
        assert(!starts_with_modifier(a2, 'A', 'a'));
        assert(bracketed(a2, inner, c.ctrl, c.alt) == Ok::<Chord, ParseFailure>(c));
        assert(bracketed(inner, inner, false, false) == Ok::<Chord, ParseFailure>(c));
        assert(first_close(s, 1) == Some(t.len() - 1));
        assert(parse_from(s, 0, leader) == prepend(seq![c], parse_from(s, t.len() as int, leader)));
    }
}

/// `first_close` from `j` finds `k` when `k` holds a `>` and nothing
/// between them does.
proof fn first_close_finds(s: Seq<char>, j: int, k: int)
    requires
        0 <= j <= k < s.len(),
        s[k] == '>',
        forall|m: int| j <= m < k ==> s[m] != '>',
    ensures
        first_close(s, j) == Some(k),
    decreases k - j,
{
    if j < k {
        first_close_finds(s, j + 1, k);
    }
}

/// The text of a chord sequence, followed by anything, parses to the
/// sequence followed by whatever the rest parses to.
proof fn lemma_sequence_round_trip(cs: Seq<Chord>, rest: Seq<char>, leader: Option<Seq<Chord>>)
    requires
        forall|i: int| 0 <= i < cs.len() ==> has_spelling(#[trigger] cs[i]),
    ensures
        parse_from(sequence_text(cs) + rest, 0, leader) == prepend(cs, parse_from(rest, 0, leader)),
    decreases cs.len(),
{
    if cs.len() == 0 {
        assert(sequence_text(cs) + rest =~= rest);
        match parse_from(rest, 0, leader) {
            Ok(x) => {
                assert(cs + x =~= x);
            },
            Err(_) => {},
        }
    } else {
        let tail = cs.skip(1);
        assert forall|i: int| 0 <= i < tail.len() implies has_spelling(#[trigger] tail[i]) by {
            assert(tail[i] == cs[i + 1]);
        }
        lemma_sequence_round_trip(tail, rest, leader);
        assert(sequence_text(cs) + rest =~= chord_text(cs[0]) + (sequence_text(tail) + rest));
        lemma_chord_round_trip(cs[0], sequence_text(tail) + rest, leader);
        match parse_from(rest, 0, leader) {
            Ok(x) => {
                assert(seq![cs[0]] + (tail + x) =~= cs + x);
            },
            Err(_) => {},
        }
    }
}

/// Writing a non-empty chord sequence in the key syntax and parsing it back
/// gives the same sequence, with or without a leader to expand, for every
/// chord that has a spelling.
pub proof fn lemma_display_round_trips(cs: Seq<Chord>, leader: Option<Seq<Chord>>)
    requires
        cs.len() > 0,
        forall|i: int| 0 <= i < cs.len() ==> has_spelling(#[trigger] cs[i]),
    ensures
        parse_chars(sequence_text(cs), leader) == Ok::<Seq<Chord>, ParseFailure>(cs),
{
    lemma_sequence_round_trip(cs, Seq::empty(), leader);
    assert(sequence_text(cs) + Seq::<char>::empty() =~= sequence_text(cs));
    assert(cs + Seq::<Chord>::empty() =~= cs);
    assert(chord_text(cs[0]).len() > 0);
    lemma_sequence_text_len(cs);
}

/// A non-empty sequence has non-empty text.
proof fn lemma_sequence_text_len(cs: Seq<Chord>)
    requires
        cs.len() > 0,
    ensures
        sequence_text(cs).len() > 0,
{
    assert(chord_text(cs[0]).len() > 0);
}

/// Parsing with a leader differs from parsing without one only at a
/// `<leader>` group: from any position where parsing without a leader does
/// not stop at such a group, both give the same result.
proof fn lemma_parse_from_leader_agrees(s: Seq<char>, i: int, leader: Seq<Chord>)
    requires
        parse_from(s, i, None) != Err::<Seq<Chord>, ParseFailure>(ParseFailure::LeaderNotAllowed),
    ensures
        parse_from(s, i, Some(leader)) == parse_from(s, i, None),
    decreases s.len() - i,
{
    if 0 <= i < s.len() {
        if s[i] == '<' {
            lemma_first_close_bounds(s, i + 1);
            if let Some(j) = first_close(s, i + 1) {
                let inner = s.subrange(i + 1, j);
                if !is_leader_token(inner) {
                    if let Ok(c) = bracketed(inner, inner, false, false) {
                        lemma_parse_from_leader_agrees(s, j + 1, leader);
                    }
                }
            }
        } else if !spec_is_whitespace(s[i]) {
            lemma_parse_from_leader_agrees(s, i + 1, leader);
        }
    }
}

/// A key sequence that parses without a leader, or fails for any reason but
/// holding `<leader>`, parses the same with any leader; and `<leader>`
/// written in any capitalisation in front of a sequence that parses to `cs`
/// gives the leader's chords followed by `cs`.
pub proof fn lemma_leader_parse_agrees(t: Seq<char>, leader: Seq<Chord>, token: Seq<char>)
    requires
        is_leader_token(token),
    ensures
        parse_chars(t, None) != Err::<Seq<Chord>, ParseFailure>(ParseFailure::LeaderNotAllowed)
            ==> parse_chars(t, Some(leader)) == parse_chars(t, None),
        parse_chars(t, None) matches Ok(cs) ==> parse_chars(
            seq!['<'] + token + seq!['>'] + t,
            Some(leader),
        ) == Ok::<Seq<Chord>, ParseFailure>(leader + cs),
{
    if t.len() > 0 && parse_from(t, 0, None) != Err::<Seq<Chord>, ParseFailure>(
        ParseFailure::LeaderNotAllowed,
    ) {
        lemma_parse_from_leader_agrees(t, 0, leader);
    }
    lemma_leader_group(t, leader, token);
}

/// A `<leader>` group, in any capitalisation, at the start of a sequence
/// expands to the leader's chords ahead of whatever follows it.
pub(crate) proof fn lemma_leader_group(t: Seq<char>, leader: Seq<Chord>, token: Seq<char>)
    requires
        is_leader_token(token),
    ensures
        parse_from(seq!['<'] + token + seq!['>'] + t, 0, Some(leader)) == prepend(
            leader,
            parse_from(t, 0, Some(leader)),
        ),
{
    let a = seq!['<'] + token + seq!['>'];
    let s = a + t;
    let lower = seq!['l', 'e', 'a', 'd', 'e', 'r'];
    assert(ascii_lower_seq(token) == lower);
    assert(ascii_lower_seq(token).len() == token.len());
    assert(lower.len() == 6);
    assert forall|m: int| 1 <= m < 7 implies s[m] != '>' by {
        assert(s[m] == token[m - 1]);
        assert(ascii_lower_seq(token)[m - 1] == ascii_lower(token[m - 1]));
        assert(lower[m - 1] != '>');
    }
    assert(s[7] == '>');
    first_close_finds(s, 1, 7);
    assert(s.subrange(1, 7) =~= token);
    lemma_parse_shift(a, t, 0, Some(leader));
    assert(parse_from(s, 0, Some(leader)) == prepend(leader, parse_from(s, 8, Some(leader))));
}

/// A key name is read in any capitalisation: every named key comes back from
/// its canonical name written with any mix of upper and lower case, and so
/// does the bracketed chord `<name>`, with or without a leader to expand.
pub proof fn lemma_named_key_any_case(n: NamedKey, name: Seq<char>, leader: Option<Seq<Chord>>)
    requires
        ascii_lower_seq(name) == ascii_lower_seq(canonical_name_chars(n)),
    ensures
        named_key_of(ascii_lower_seq(name)) == Some(n),
        parse_chars(seq!['<'] + name + seq!['>'], leader) == Ok::<Seq<Chord>, ParseFailure>(
            seq![Chord { key: Key::Named(n), ctrl: false, alt: false }],
        ),
{
    lemma_named_round_trip(n);
    let canon = canonical_name_chars(n);
    let s = seq!['<'] + name + seq!['>'];
    assert(ascii_lower_seq(name).len() == name.len());
    assert(ascii_lower_seq(canon).len() == canon.len());
    let len = name.len() as int;
    assert forall|m: int| 0 <= m < len implies ascii_lower(#[trigger] name[m]) == ascii_lower(
        canon[m],
    ) by {
        assert(ascii_lower_seq(name)[m] == ascii_lower_seq(canon)[m]);
    }
    assert forall|m: int| 1 <= m < len + 1 implies s[m] != '>' by {
        assert(s[m] == name[m - 1]);
        assert(ascii_lower(name[m - 1]) == ascii_lower(canon[m - 1]));
        assert(canon[m - 1] != '>');
    }
    assert(s[len + 1] == '>');
    first_close_finds(s, 1, len + 1);
    assert(s.subrange(1, len + 1) =~= name);
    assert(ascii_lower(name[0]) == ascii_lower(canon[0]));
    assert(ascii_lower(name[1]) == ascii_lower(canon[1]));
    assert(!starts_with_modifier(name, 'C', 'c'));
    assert(!starts_with_modifier(name, 'A', 'a'));
    assert(bracketed(name, name, false, false) == Ok::<Chord, ParseFailure>(
        Chord { key: Key::Named(n), ctrl: false, alt: false },
    ));
    assert(parse_from(s, len + 2, leader) == Ok::<Seq<Chord>, ParseFailure>(Seq::empty()));
    assert(seq![Chord { key: Key::Named(n), ctrl: false, alt: false }] + Seq::<Chord>::empty()
        =~= seq![Chord { key: Key::Named(n), ctrl: false, alt: false }]);
}

/// A bracket group whose inside lower-cases to `lower` (at least two
/// characters, no `-` second, no `>`, not `leader`) parses to the chord of
/// the named key that `lower` names.
proof fn lemma_bracketed_name(name: Seq<char>, lower: Seq<char>, leader: Option<Seq<Chord>>)
    requires
        ascii_lower_seq(name) == lower,
        lower.len() >= 2,
        lower[1] != '-',
        forall|k: int| 0 <= k < lower.len() ==> lower[k] != '>',
        lower != seq!['l', 'e', 'a', 'd', 'e', 'r'],
        named_key_of(lower) is Some,
    ensures
        parse_chars(seq!['<'] + name + seq!['>'], leader) == Ok::<Seq<Chord>, ParseFailure>(
            seq![Chord { key: Key::Named(named_key_of(lower).unwrap()), ctrl: false, alt: false }],
        ),
{
    let n = named_key_of(lower).unwrap();
    let s = seq!['<'] + name + seq!['>'];
    assert(ascii_lower_seq(name).len() == name.len());
    let len = name.len() as int;
    assert forall|m: int| 0 <= m < len implies ascii_lower(#[trigger] name[m]) == lower[m] by {
        assert(ascii_lower_seq(name)[m] == ascii_lower(name[m]));
    }
    assert forall|m: int| 1 <= m < len + 1 implies s[m] != '>' by {
        assert(s[m] == name[m - 1]);
        assert(ascii_lower(name[m - 1]) == lower[m - 1]);
    }
    assert(s[len + 1] == '>');
    first_close_finds(s, 1, len + 1);
    assert(s.subrange(1, len + 1) =~= name);
    assert(ascii_lower(name[1]) == lower[1]);
    assert(name[1] != '-');
    assert(!is_leader_token(name));
    assert(bracketed(name, name, false, false) == Ok::<Chord, ParseFailure>(
        Chord { key: Key::Named(n), ctrl: false, alt: false },
    ));
    assert(parse_from(s, len + 2, leader) == Ok::<Seq<Chord>, ParseFailure>(Seq::empty()));
    assert(seq![Chord { key: Key::Named(n), ctrl: false, alt: false }] + Seq::<Chord>::empty()
        =~= seq![Chord { key: Key::Named(n), ctrl: false, alt: false }]);
}

/// Every spelling of a named key, in any mix of upper and lower case, reads
/// inside brackets as that key: `<Esc>` and `<Escape>`, `<CR>`, `<Enter>`
/// and `<Return>`, `<BS>` and `<Backspace>`, and the one name of each other
/// key.
pub proof fn lemma_key_name_aliases(name: Seq<char>, leader: Option<Seq<Chord>>)
    ensures
        ascii_lower_seq(name) == seq!['e', 's', 'c'] ==> parse_chars(seq!['<'] + name + seq!['>'], leader)
            == Ok::<Seq<Chord>, ParseFailure>(seq![Chord { key: Key::Named(NamedKey::Escape), ctrl: false, alt: false }]),
        ascii_lower_seq(name) == seq!['e', 's', 'c', 'a', 'p', 'e'] ==> parse_chars(seq!['<'] + name + seq!['>'], leader)
            == Ok::<Seq<Chord>, ParseFailure>(seq![Chord { key: Key::Named(NamedKey::Escape), ctrl: false, alt: false }]),
        ascii_lower_seq(name) == seq!['c', 'r'] ==> parse_chars(seq!['<'] + name + seq!['>'], leader)
            == Ok::<Seq<Chord>, ParseFailure>(seq![Chord { key: Key::Named(NamedKey::Enter), ctrl: false, alt: false }]),
        ascii_lower_seq(name) == seq!['e', 'n', 't', 'e', 'r'] ==> parse_chars(seq!['<'] + name + seq!['>'], leader)
            == Ok::<Seq<Chord>, ParseFailure>(seq![Chord { key: Key::Named(NamedKey::Enter), ctrl: false, alt: false }]),
        ascii_lower_seq(name) == seq!['r', 'e', 't', 'u', 'r', 'n'] ==> parse_chars(seq!['<'] + name + seq!['>'], leader)
            == Ok::<Seq<Chord>, ParseFailure>(seq![Chord { key: Key::Named(NamedKey::Enter), ctrl: false, alt: false }]),
        ascii_lower_seq(name) == seq!['t', 'a', 'b'] ==> parse_chars(seq!['<'] + name + seq!['>'], leader)
            == Ok::<Seq<Chord>, ParseFailure>(seq![Chord { key: Key::Named(NamedKey::Tab), ctrl: false, alt: false }]),
        ascii_lower_seq(name) == seq!['s', 'p', 'a', 'c', 'e'] ==> parse_chars(seq!['<'] + name + seq!['>'], leader)
            == Ok::<Seq<Chord>, ParseFailure>(seq![Chord { key: Key::Named(NamedKey::Space), ctrl: false, alt: false }]),
        ascii_lower_seq(name) == seq!['b', 's'] ==> parse_chars(seq!['<'] + name + seq!['>'], leader)
            == Ok::<Seq<Chord>, ParseFailure>(seq![Chord { key: Key::Named(NamedKey::Backspace), ctrl: false, alt: false }]),
        ascii_lower_seq(name) == seq!['b', 'a', 'c', 'k', 's', 'p', 'a', 'c', 'e'] ==> parse_chars(seq!['<'] + name + seq!['>'], leader)
            == Ok::<Seq<Chord>, ParseFailure>(seq![Chord { key: Key::Named(NamedKey::Backspace), ctrl: false, alt: false }]),
        ascii_lower_seq(name) == seq!['u', 'p'] ==> parse_chars(seq!['<'] + name + seq!['>'], leader)
            == Ok::<Seq<Chord>, ParseFailure>(seq![Chord { key: Key::Named(NamedKey::Up), ctrl: false, alt: false }]),
        ascii_lower_seq(name) == seq!['d', 'o', 'w', 'n'] ==> parse_chars(seq!['<'] + name + seq!['>'], leader)
            == Ok::<Seq<Chord>, ParseFailure>(seq![Chord { key: Key::Named(NamedKey::Down), ctrl: false, alt: false }]),
        ascii_lower_seq(name) == seq!['l', 'e', 'f', 't'] ==> parse_chars(seq!['<'] + name + seq!['>'], leader)
            == Ok::<Seq<Chord>, ParseFailure>(seq![Chord { key: Key::Named(NamedKey::Left), ctrl: false, alt: false }]),
        ascii_lower_seq(name) == seq!['r', 'i', 'g', 'h', 't'] ==> parse_chars(seq!['<'] + name + seq!['>'], leader)
            == Ok::<Seq<Chord>, ParseFailure>(seq![Chord { key: Key::Named(NamedKey::Right), ctrl: false, alt: false }]),
        ascii_lower_seq(name) == seq!['p', 'a', 'g', 'e', 'u', 'p'] ==> parse_chars(seq!['<'] + name + seq!['>'], leader)
            == Ok::<Seq<Chord>, ParseFailure>(seq![Chord { key: Key::Named(NamedKey::PageUp), ctrl: false, alt: false }]),
        ascii_lower_seq(name) == seq!['p', 'a', 'g', 'e', 'd', 'o', 'w', 'n'] ==> parse_chars(seq!['<'] + name + seq!['>'], leader)
            == Ok::<Seq<Chord>, ParseFailure>(seq![Chord { key: Key::Named(NamedKey::PageDown), ctrl: false, alt: false }]),
        ascii_lower_seq(name) == seq!['h', 'o', 'm', 'e'] ==> parse_chars(seq!['<'] + name + seq!['>'], leader)
            == Ok::<Seq<Chord>, ParseFailure>(seq![Chord { key: Key::Named(NamedKey::Home), ctrl: false, alt: false }]),
        ascii_lower_seq(name) == seq!['e', 'n', 'd'] ==> parse_chars(seq!['<'] + name + seq!['>'], leader)
            == Ok::<Seq<Chord>, ParseFailure>(seq![Chord { key: Key::Named(NamedKey::End), ctrl: false, alt: false }]),
{
    if ascii_lower_seq(name) == seq!['e', 's', 'c'] {
        lemma_bracketed_name(name, seq!['e', 's', 'c'], leader);
    }
    if ascii_lower_seq(name) == seq!['e', 's', 'c', 'a', 'p', 'e'] {
        lemma_bracketed_name(name, seq!['e', 's', 'c', 'a', 'p', 'e'], leader);
    }
    if ascii_lower_seq(name) == seq!['c', 'r'] {
        lemma_bracketed_name(name, seq!['c', 'r'], leader);
    }
    if ascii_lower_seq(name) == seq!['e', 'n', 't', 'e', 'r'] {
        lemma_bracketed_name(name, seq!['e', 'n', 't', 'e', 'r'], leader);
    }
    if ascii_lower_seq(name) == seq!['r', 'e', 't', 'u', 'r', 'n'] {
        lemma_bracketed_name(name, seq!['r', 'e', 't', 'u', 'r', 'n'], leader);
    }
    if ascii_lower_seq(name) == seq!['t', 'a', 'b'] {
        lemma_bracketed_name(name, seq!['t', 'a', 'b'], leader);
    }
    if ascii_lower_seq(name) == seq!['s', 'p', 'a', 'c', 'e'] {
        lemma_bracketed_name(name, seq!['s', 'p', 'a', 'c', 'e'], leader);
    }
    if ascii_lower_seq(name) == seq!['b', 's'] {
        lemma_bracketed_name(name, seq!['b', 's'], leader);
    }
    if ascii_lower_seq(name) == seq!['b', 'a', 'c', 'k', 's', 'p', 'a', 'c', 'e'] {
        lemma_bracketed_name(name, seq!['b', 'a', 'c', 'k', 's', 'p', 'a', 'c', 'e'], leader);
    }
    if ascii_lower_seq(name) == seq!['u', 'p'] {
        lemma_bracketed_name(name, seq!['u', 'p'], leader);
    }
    if ascii_lower_seq(name) == seq!['d', 'o', 'w', 'n'] {
        lemma_bracketed_name(name, seq!['d', 'o', 'w', 'n'], leader);
    }
    if ascii_lower_seq(name) == seq!['l', 'e', 'f', 't'] {
        lemma_bracketed_name(name, seq!['l', 'e', 'f', 't'], leader);
    }
    if ascii_lower_seq(name) == seq!['r', 'i', 'g', 'h', 't'] {
        lemma_bracketed_name(name, seq!['r', 'i', 'g', 'h', 't'], leader);
    }
    if ascii_lower_seq(name) == seq!['p', 'a', 'g', 'e', 'u', 'p'] {
        lemma_bracketed_name(name, seq!['p', 'a', 'g', 'e', 'u', 'p'], leader);
    }
    if ascii_lower_seq(name) == seq!['p', 'a', 'g', 'e', 'd', 'o', 'w', 'n'] {
        lemma_bracketed_name(name, seq!['p', 'a', 'g', 'e', 'd', 'o', 'w', 'n'], leader);
    }
    if ascii_lower_seq(name) == seq!['h', 'o', 'm', 'e'] {
        lemma_bracketed_name(name, seq!['h', 'o', 'm', 'e'], leader);
    }
    if ascii_lower_seq(name) == seq!['e', 'n', 'd'] {
        lemma_bracketed_name(name, seq!['e', 'n', 'd'], leader);
    }
}
} // verus!
