//! The key tables of every mode, built from the configuration.
//!
//! The leader is parsed first, because every table may use it; a leader that
//! does not parse falls back to the default with a warning, rather than
//! costing every `<leader>` binding. Focus, visual and highlight mode each
//! use the normal table with their own bindings laid over it, so every
//! normal binding still works there and only the overridden keys change
//! meaning. Every invalid entry becomes a startup warning.

use vstd::prelude::*;
use vstd::string::StringExecFns;

use crate::caret::Mode;
use crate::command::{command_name, Command};
use crate::config::{focus_table, highlight_table, normal_table, visual_table, DEFAULT_LEADER};
use crate::input::{
    command_named, entries_view, entry_error_view, keymap_error_text, overlay_errors, overlay_map,
    EntryError,
    Keymap, KeymapError,
};
use crate::keys::{
    canonical_name_chars, failure_message, has_spelling, lemma_display_round_trips,
    lemma_leader_group, lemma_named_key_any_case, parse_chars, parse_from, parse_sequence,
    chord_text, sequence_text, Chord, Key, NamedKey,
};
use crate::text::{ascii_lower_seq, debug_quote, debug_quoted, owned, spec_is_whitespace};

verus! {

/// The key tables of the four modes, and the problems found building them.
pub struct ModeKeymaps {
    pub normal: Keymap,
    pub focus: Keymap,
    pub visual: Keymap,
    pub highlight: Keymap,
    /// One message per problem, in the order the tables were read.
    pub warnings: Vec<String>,
}

impl ModeKeymaps {
    /// Each table keeps its invariant.
    pub open spec fn wf(&self) -> bool {
        self.normal.wf() && self.focus.wf() && self.visual.wf() && self.highlight.wf()
    }

    /// The table that resolves keys in `mode`.
    pub fn for_mode(&self, mode: Mode) -> (r: &Keymap)
        ensures
            r == match mode {
                Mode::Normal => &self.normal,
                Mode::Focus => &self.focus,
                Mode::Visual => &self.visual,
                Mode::Highlight => &self.highlight,
            },
    {
        match mode {
            Mode::Normal => &self.normal,
            Mode::Focus => &self.focus,
            Mode::Visual => &self.visual,
            Mode::Highlight => &self.highlight,
        }
    }
}

/// The leader `leader` sets: its chords, or the default leader's when it
/// does not parse (and none if that did not parse either).
pub open spec fn leader_of(leader: Seq<char>) -> Seq<Chord> {
    match parse_chars(leader, None) {
        Ok(cs) => cs,
        Err(_) => match parse_chars(DEFAULT_LEADER@, None) {
            Ok(cs) => cs,
            Err(_) => Seq::empty(),
        },
    }
}

/// The warning for a leader that does not parse; none for one that does.
pub open spec fn leader_warning(leader: Seq<char>) -> Seq<Seq<char>> {
    match parse_chars(leader, None) {
        Ok(_) => Seq::empty(),
        Err(f) => seq![
            "invalid [input] leader: "@ + ("invalid key sequence "@ + debug_quoted(leader) + ": "@
                + failure_message(f, leader)) + "; using the default "@ + debug_quoted(
                DEFAULT_LEADER@,
            ),
        ],
    }
}

/// The message for a problem with one config entry.
pub open spec fn entry_error_text(e: EntryError) -> Seq<char> {
    match e {
        EntryError::Key(sequence, message) => "invalid key sequence "@ + debug_quoted(sequence)
            + ": "@ + message,
        EntryError::Command(sequence, name) => "binding "@ + debug_quoted(sequence) + ": "@ + (
        "unknown command "@ + debug_quoted(name)) + " (see docs/commands.md for the command list)"@,
    }
}

/// The warnings for the entries of one table.
pub open spec fn table_warnings(entries: Seq<(Seq<char>, Seq<char>)>, leader: Seq<Chord>) -> Seq<
    Seq<char>,
> {
    overlay_errors(entries, leader).map_values(|e: EntryError| entry_error_text(e))
}

/// The message of an error is the message of what it says went wrong.
proof fn lemma_error_text(e: KeymapError)
    ensures
        keymap_error_text(e) == entry_error_text(entry_error_view(e)),
{
}

/// Append the messages of `errors` to `warnings`.
fn push_messages(warnings: &mut Vec<String>, errors: &Vec<KeymapError>)
    ensures
        final(warnings)@.map_values(|w: String| w@) == old(warnings)@.map_values(|w: String| w@)
            + errors@.map_values(|e: KeymapError| entry_error_view(e)).map_values(
            |e: EntryError| entry_error_text(e),
        ),
{
    let ghost start = warnings@;
    let mut i: usize = 0;
    while i < errors.len()
        invariant
            i <= errors@.len(),
            warnings@.map_values(|w: String| w@) == start.map_values(|w: String| w@)
                + errors@.take(i as int).map_values(|e: KeymapError| entry_error_view(e)).map_values(
                |e: EntryError| entry_error_text(e),
            ),
        decreases errors@.len() - i,
    {
        let m = errors[i].message();
        proof {
            lemma_error_text(errors@[i as int]);
        }
        let ghost before = warnings@;
        warnings.push(m);
        proof {
            let texts = |e: KeymapError| entry_error_view(e);
            let words = |e: EntryError| entry_error_text(e);
            let done = errors@.take(i as int);
            let next = errors@.take(i as int + 1);
            assert(next =~= done.push(errors@[i as int]));
            assert(next.map_values(texts) =~= done.map_values(texts).push(
                entry_error_view(errors@[i as int]),
            ));
            assert(next.map_values(texts).map_values(words) =~= done.map_values(texts).map_values(
                words,
            ).push(entry_error_text(entry_error_view(errors@[i as int]))));
            assert(warnings@.map_values(|w: String| w@) =~= before.map_values(|w: String| w@).push(
                m@,
            ));
        }
        i = i + 1;
    }
    assert(errors@.take(errors@.len() as int) =~= errors@);
}

/// Build the key tables of every mode from the config: `leader` is the
/// `[input] leader` setting, the others the `[keys]`, `[focus_keys]`,
/// `[visual_keys]` and `[highlight_keys]` tables as `(key sequence,
/// command name)` pairs.
pub fn build_keymaps(
    leader: &str,
    keys: &[(&str, &str)],
    focus_keys: &[(&str, &str)],
    visual_keys: &[(&str, &str)],
    highlight_keys: &[(&str, &str)],
) -> (r: ModeKeymaps)
    ensures
        r.wf(),
        r.normal.leader_view() == leader_of(leader@),
        r.focus.leader_view() == leader_of(leader@),
        r.visual.leader_view() == leader_of(leader@),
        r.highlight.leader_view() == leader_of(leader@),
        r.normal@ == overlay_map(Map::empty(), entries_view(keys@), leader_of(leader@)),
        r.focus@ == overlay_map(r.normal@, entries_view(focus_keys@), leader_of(leader@)),
        r.visual@ == overlay_map(r.normal@, entries_view(visual_keys@), leader_of(leader@)),
        r.highlight@ == overlay_map(r.normal@, entries_view(highlight_keys@), leader_of(leader@)),
        r.warnings@.map_values(|w: String| w@) == leader_warning(leader@) + table_warnings(
            entries_view(keys@),
            leader_of(leader@),
        ) + table_warnings(entries_view(focus_keys@), leader_of(leader@)) + table_warnings(
            entries_view(visual_keys@),
            leader_of(leader@),
        ) + table_warnings(entries_view(highlight_keys@), leader_of(leader@)),
{
    let mut warnings: Vec<String> = Vec::new();
    let chords: Vec<Chord> = match parse_sequence(leader) {
        Ok(chords) => chords,
        Err(e) => {
            let mut w = owned("invalid [input] leader: ");
            let d = e.describe();
            w.append(d.as_str());
            w.append("; using the default ");
            let q = debug_quote(DEFAULT_LEADER);
            w.append(q.as_str());
            warnings.push(w);
            match parse_sequence(DEFAULT_LEADER) {
                Ok(chords) => chords,
                Err(_) => Vec::new(),
            }
        },
    };
    assert(warnings@.map_values(|w: String| w@) =~= leader_warning(leader@));
    let ghost l = leader_of(leader@);
    assert(chords@ == l);
    let (normal, errors) = Keymap::from_entries(keys, chords.as_slice());
    push_messages(&mut warnings, &errors);
    let mut focus = normal.duplicate();
    let errors = focus.overlay(focus_keys);
    push_messages(&mut warnings, &errors);
    let mut visual = normal.duplicate();
    let errors = visual.overlay(visual_keys);
    push_messages(&mut warnings, &errors);
    let mut highlight = normal.duplicate();
    let errors = highlight.overlay(highlight_keys);
    push_messages(&mut warnings, &errors);
    ModeKeymaps { normal, focus, visual, highlight, warnings }
}


/// Whether config entry `e` binds: its key sequence parses with `leader`
/// and its command name names a command.
pub open spec fn entry_binds(e: (Seq<char>, Seq<char>), leader: Seq<Chord>) -> bool {
    parse_chars(e.0, Some(leader)) is Ok && command_named(e.1) is Some
}

/// A table whose every entry binds reports no error.
proof fn lemma_table_binds(entries: Seq<(Seq<char>, Seq<char>)>, leader: Seq<Chord>)
    requires
        forall|i: int| 0 <= i < entries.len() ==> entry_binds(#[trigger] entries[i], leader),
    ensures
        overlay_errors(entries, leader) == Seq::<EntryError>::empty(),
    decreases entries.len(),
{
    if entries.len() > 0 {
        let rest = entries.skip(1);
        assert forall|i: int| 0 <= i < rest.len() implies entry_binds(#[trigger] rest[i], leader) by {
            assert(rest[i] == entries[i + 1]);
        }
        lemma_table_binds(rest, leader);
        assert(entry_binds(entries[0], leader));
        assert(Seq::<EntryError>::empty() + Seq::<EntryError>::empty() =~= Seq::<EntryError>::empty());
    }
}

/// A run of characters none of which opens a bracket group or is white
/// space parses from any position.
proof fn lemma_plain_from(s: Seq<char>, i: int, leader: Seq<Chord>)
    requires
        0 <= i,
        forall|k: int| 0 <= k < s.len() ==> s[k] != '<' && !spec_is_whitespace(#[trigger] s[k]),
    ensures
        parse_from(s, i, Some(leader)) is Ok,
    decreases s.len() - i,
{
    if i < s.len() {
        lemma_plain_from(s, i + 1, leader);
    }
}

/// A key sequence of plain characters parses.
proof fn lemma_plain_key_parses(k: Seq<char>, cs: Seq<char>, leader: Seq<Chord>)
    requires
        k =~= cs,
        cs.len() > 0,
        forall|i: int| 0 <= i < cs.len() ==> cs[i] != '<' && !spec_is_whitespace(#[trigger] cs[i]),
    ensures
        parse_chars(k, Some(leader)) is Ok,
{
    lemma_plain_from(cs, 0, leader);
}

/// `<leader>` followed by plain characters parses.
proof fn lemma_leader_key_parses(k: Seq<char>, cs: Seq<char>, leader: Seq<Chord>)
    requires
        k =~= seq!['<', 'l', 'e', 'a', 'd', 'e', 'r', '>'] + cs,
        forall|i: int| 0 <= i < cs.len() ==> cs[i] != '<' && !spec_is_whitespace(#[trigger] cs[i]),
    ensures
        parse_chars(k, Some(leader)) is Ok,
{
    let token = seq!['l', 'e', 'a', 'd', 'e', 'r'];
    assert(ascii_lower_seq(token) =~= token);
    assert(k =~= seq!['<'] + token + seq!['>'] + cs);
    lemma_leader_group(cs, leader, token);
    lemma_plain_from(cs, 0, leader);
}

/// A named key in brackets, spelled canonically, parses.
proof fn lemma_named_key_parses(k: Seq<char>, n: NamedKey, leader: Seq<Chord>)
    requires
        k =~= seq!['<'] + canonical_name_chars(n) + seq!['>'],
    ensures
        parse_chars(k, Some(leader)) is Ok,
{
    lemma_named_key_any_case(n, canonical_name_chars(n), Some(leader));
}

/// A control chord on a character other than `>` parses.
proof fn lemma_ctrl_key_parses(k: Seq<char>, ch: char, leader: Seq<Chord>)
    requires
        k =~= seq!['<', 'C', '-', ch, '>'],
        ch != '>',
    ensures
        parse_chars(k, Some(leader)) is Ok,
{
    let c = Chord { key: Key::Char(ch), ctrl: true, alt: false };
    assert(has_spelling(c));
    assert(seq![c].skip(1) =~= Seq::<Chord>::empty());
    assert(seq![c][0] == c);
    assert(sequence_text(Seq::<Chord>::empty()) == Seq::<char>::empty());
    assert(chord_text(c) =~= k);
    assert(sequence_text(seq![c]) =~= k);
    lemma_display_round_trips(seq![c], Some(leader));
}

/// Every entry of the built-in `[keys]` table binds.
#[verifier::rlimit(100)]
#[verifier::spinoff_prover]
proof fn lemma_normal_table_binds(leader: Seq<Chord>)
    ensures
        overlay_errors(normal_table(), leader) == Seq::<EntryError>::empty(),
{
    let t = normal_table();
    assert forall|i: int| 0 <= i < t.len() implies entry_binds(#[trigger] t[i], leader) by {
        if i == 0 {
            reveal_strlit("+");
            lemma_plain_key_parses("+"@, seq!['+'], leader);
            assert(command_name(Command::ZoomIn) == "zoom_in"@);
        } else if i == 1 {
            reveal_strlit("-");
            lemma_plain_key_parses("-"@, seq!['-'], leader);
            assert(command_name(Command::ZoomOut) == "zoom_out"@);
        } else if i == 2 {
            reveal_strlit("<C-b>");
            lemma_ctrl_key_parses("<C-b>"@, 'b', leader);
            assert(command_name(Command::ScrollPageUp) == "scroll_page_up"@);
        } else if i == 3 {
            reveal_strlit("<C-d>");
            lemma_ctrl_key_parses("<C-d>"@, 'd', leader);
            assert(command_name(Command::ScrollHalfPageDown) == "scroll_half_page_down"@);
        } else if i == 4 {
            reveal_strlit("<C-f>");
            lemma_ctrl_key_parses("<C-f>"@, 'f', leader);
            assert(command_name(Command::ScrollPageDown) == "scroll_page_down"@);
        } else if i == 5 {
            reveal_strlit("<C-u>");
            lemma_ctrl_key_parses("<C-u>"@, 'u', leader);
            assert(command_name(Command::ScrollHalfPageUp) == "scroll_half_page_up"@);
        } else if i == 6 {
            reveal_strlit("<Down>");
            lemma_named_key_parses("<Down>"@, NamedKey::Down, leader);
            assert(command_name(Command::ScrollDown) == "scroll_down"@);
        } else if i == 7 {
            reveal_strlit("<Esc>");
            lemma_named_key_parses("<Esc>"@, NamedKey::Escape, leader);
            assert(command_name(Command::Cancel) == "cancel"@);
        } else if i == 8 {
            reveal_strlit("<Left>");
            lemma_named_key_parses("<Left>"@, NamedKey::Left, leader);
            assert(command_name(Command::ScrollLeft) == "scroll_left"@);
        } else if i == 9 {
            reveal_strlit("<PageDown>");
            lemma_named_key_parses("<PageDown>"@, NamedKey::PageDown, leader);
            assert(command_name(Command::NextPage) == "next_page"@);
        } else if i == 10 {
            reveal_strlit("<PageUp>");
            lemma_named_key_parses("<PageUp>"@, NamedKey::PageUp, leader);
            assert(command_name(Command::PrevPage) == "prev_page"@);
        } else if i == 11 {
            reveal_strlit("<Right>");
            lemma_named_key_parses("<Right>"@, NamedKey::Right, leader);
            assert(command_name(Command::ScrollRight) == "scroll_right"@);
        } else if i == 12 {
            reveal_strlit("<Up>");
            lemma_named_key_parses("<Up>"@, NamedKey::Up, leader);
            assert(command_name(Command::ScrollUp) == "scroll_up"@);
        } else if i == 13 {
            reveal_strlit("<leader>o");
            lemma_leader_key_parses("<leader>o"@, seq!['o'], leader);
            assert(command_name(Command::OpenFile) == "open_file"@);
        } else if i == 14 {
            reveal_strlit("<leader>q");
            lemma_leader_key_parses("<leader>q"@, seq!['q'], leader);
            assert(command_name(Command::Quit) == "quit"@);
        } else if i == 15 {
            reveal_strlit("<leader>w");
            lemma_leader_key_parses("<leader>w"@, seq!['w'], leader);
            assert(command_name(Command::SaveDocument) == "save_document"@);
        } else if i == 16 {
            reveal_strlit("=");
            lemma_plain_key_parses("="@, seq!['='], leader);
            assert(command_name(Command::ZoomIn) == "zoom_in"@);
        } else if i == 17 {
            reveal_strlit("G");
            lemma_plain_key_parses("G"@, seq!['G'], leader);
            assert(command_name(Command::GotoLastPage) == "goto_last_page"@);
        } else if i == 18 {
            reveal_strlit("J");
            lemma_plain_key_parses("J"@, seq!['J'], leader);
            assert(command_name(Command::NextPage) == "next_page"@);
        } else if i == 19 {
            reveal_strlit("K");
            lemma_plain_key_parses("K"@, seq!['K'], leader);
            assert(command_name(Command::PrevPage) == "prev_page"@);
        } else if i == 20 {
            reveal_strlit("c");
            lemma_plain_key_parses("c"@, seq!['c'], leader);
            assert(command_name(Command::FocusEnter) == "focus_enter"@);
        } else if i == 21 {
            reveal_strlit("cc");
            lemma_plain_key_parses("cc"@, seq!['c', 'c'], leader);
            assert(command_name(Command::FocusEnterChar) == "focus_enter_char"@);
        } else if i == 22 {
            reveal_strlit("ce");
            lemma_plain_key_parses("ce"@, seq!['c', 'e'], leader);
            assert(command_name(Command::FocusEnterLine) == "focus_enter_line"@);
        } else if i == 23 {
            reveal_strlit("cp");
            lemma_plain_key_parses("cp"@, seq!['c', 'p'], leader);
            assert(command_name(Command::FocusEnterParagraph) == "focus_enter_paragraph"@);
        } else if i == 24 {
            reveal_strlit("cs");
            lemma_plain_key_parses("cs"@, seq!['c', 's'], leader);
            assert(command_name(Command::FocusEnterSentence) == "focus_enter_sentence"@);
        } else if i == 25 {
            reveal_strlit("cw");
            lemma_plain_key_parses("cw"@, seq!['c', 'w'], leader);
            assert(command_name(Command::FocusEnterWord) == "focus_enter_word"@);
        } else if i == 26 {
            reveal_strlit("gg");
            lemma_plain_key_parses("gg"@, seq!['g', 'g'], leader);
            assert(command_name(Command::GotoFirstPage) == "goto_first_page"@);
        } else if i == 27 {
            reveal_strlit("h");
            lemma_plain_key_parses("h"@, seq!['h'], leader);
            assert(command_name(Command::ScrollLeft) == "scroll_left"@);
        } else if i == 28 {
            reveal_strlit("j");
            lemma_plain_key_parses("j"@, seq!['j'], leader);
            assert(command_name(Command::ScrollDown) == "scroll_down"@);
        } else if i == 29 {
            reveal_strlit("k");
            lemma_plain_key_parses("k"@, seq!['k'], leader);
            assert(command_name(Command::ScrollUp) == "scroll_up"@);
        } else if i == 30 {
            reveal_strlit("l");
            lemma_plain_key_parses("l"@, seq!['l'], leader);
            assert(command_name(Command::ScrollRight) == "scroll_right"@);
        } else if i == 31 {
            reveal_strlit("v");
            lemma_plain_key_parses("v"@, seq!['v'], leader);
            assert(command_name(Command::VisualEnter) == "visual_enter"@);
        } else if i == 32 {
            reveal_strlit("vc");
            lemma_plain_key_parses("vc"@, seq!['v', 'c'], leader);
            assert(command_name(Command::VisualEnterChar) == "visual_enter_char"@);
        } else if i == 33 {
            reveal_strlit("ve");
            lemma_plain_key_parses("ve"@, seq!['v', 'e'], leader);
            assert(command_name(Command::VisualEnterLine) == "visual_enter_line"@);
        } else if i == 34 {
            reveal_strlit("vp");
            lemma_plain_key_parses("vp"@, seq!['v', 'p'], leader);
            assert(command_name(Command::VisualEnterParagraph) == "visual_enter_paragraph"@);
        } else if i == 35 {
            reveal_strlit("vs");
            lemma_plain_key_parses("vs"@, seq!['v', 's'], leader);
            assert(command_name(Command::VisualEnterSentence) == "visual_enter_sentence"@);
        } else if i == 36 {
            reveal_strlit("vw");
            lemma_plain_key_parses("vw"@, seq!['v', 'w'], leader);
            assert(command_name(Command::VisualEnterWord) == "visual_enter_word"@);
        } else if i == 37 {
            reveal_strlit("z0");
            lemma_plain_key_parses("z0"@, seq!['z', '0'], leader);
            assert(command_name(Command::ZoomReset) == "zoom_reset"@);
        } else if i == 38 {
            reveal_strlit("zw");
            lemma_plain_key_parses("zw"@, seq!['z', 'w'], leader);
            assert(command_name(Command::FitWidth) == "fit_width"@);
        }
    }
    lemma_table_binds(t, leader);
}

/// Every entry of the built-in `[focus_keys]` table binds.
proof fn lemma_focus_table_binds(leader: Seq<Chord>)
    ensures
        overlay_errors(focus_table(), leader) == Seq::<EntryError>::empty(),
{
    let t = focus_table();
    assert forall|i: int| 0 <= i < t.len() implies entry_binds(#[trigger] t[i], leader) by {
        if i == 0 {
            reveal_strlit("<Down>");
            lemma_named_key_parses("<Down>"@, NamedKey::Down, leader);
            assert(command_name(Command::FocusDown) == "focus_down"@);
        } else if i == 1 {
            reveal_strlit("<Esc>");
            lemma_named_key_parses("<Esc>"@, NamedKey::Escape, leader);
            assert(command_name(Command::FocusExit) == "focus_exit"@);
        } else if i == 2 {
            reveal_strlit("<Left>");
            lemma_named_key_parses("<Left>"@, NamedKey::Left, leader);
            assert(command_name(Command::FocusLeft) == "focus_left"@);
        } else if i == 3 {
            reveal_strlit("<Right>");
            lemma_named_key_parses("<Right>"@, NamedKey::Right, leader);
            assert(command_name(Command::FocusRight) == "focus_right"@);
        } else if i == 4 {
            reveal_strlit("<Up>");
            lemma_named_key_parses("<Up>"@, NamedKey::Up, leader);
            assert(command_name(Command::FocusUp) == "focus_up"@);
        } else if i == 5 {
            reveal_strlit("a");
            lemma_plain_key_parses("a"@, seq!['a'], leader);
            assert(command_name(Command::HighlightEnter) == "highlight_enter"@);
        } else if i == 6 {
            reveal_strlit("b");
            lemma_plain_key_parses("b"@, seq!['b'], leader);
            assert(command_name(Command::FocusPrevWord) == "focus_prev_word"@);
        } else if i == 7 {
            reveal_strlit("e");
            lemma_plain_key_parses("e"@, seq!['e'], leader);
            assert(command_name(Command::FocusNextLine) == "focus_next_line"@);
        } else if i == 8 {
            reveal_strlit("h");
            lemma_plain_key_parses("h"@, seq!['h'], leader);
            assert(command_name(Command::FocusLeft) == "focus_left"@);
        } else if i == 9 {
            reveal_strlit("j");
            lemma_plain_key_parses("j"@, seq!['j'], leader);
            assert(command_name(Command::FocusDown) == "focus_down"@);
        } else if i == 10 {
            reveal_strlit("k");
            lemma_plain_key_parses("k"@, seq!['k'], leader);
            assert(command_name(Command::FocusUp) == "focus_up"@);
        } else if i == 11 {
            reveal_strlit("l");
            lemma_plain_key_parses("l"@, seq!['l'], leader);
            assert(command_name(Command::FocusRight) == "focus_right"@);
        } else if i == 12 {
            reveal_strlit("p");
            lemma_plain_key_parses("p"@, seq!['p'], leader);
            assert(command_name(Command::FocusNextParagraph) == "focus_next_paragraph"@);
        } else if i == 13 {
            reveal_strlit("s");
            lemma_plain_key_parses("s"@, seq!['s'], leader);
            assert(command_name(Command::FocusNextSentence) == "focus_next_sentence"@);
        } else if i == 14 {
            reveal_strlit("w");
            lemma_plain_key_parses("w"@, seq!['w'], leader);
            assert(command_name(Command::FocusNextWord) == "focus_next_word"@);
        }
    }
    lemma_table_binds(t, leader);
}

/// Every entry of the built-in `[visual_keys]` table binds.
#[verifier::rlimit(100)]
#[verifier::spinoff_prover]
proof fn lemma_visual_table_binds(leader: Seq<Chord>)
    ensures
        overlay_errors(visual_table(), leader) == Seq::<EntryError>::empty(),
{
    let t = visual_table();
    assert forall|i: int| 0 <= i < t.len() implies entry_binds(#[trigger] t[i], leader) by {
        if i == 0 {
            reveal_strlit("<Down>");
            lemma_named_key_parses("<Down>"@, NamedKey::Down, leader);
            assert(command_name(Command::VisualDown) == "visual_down"@);
        } else if i == 1 {
            reveal_strlit("<Esc>");
            lemma_named_key_parses("<Esc>"@, NamedKey::Escape, leader);
            assert(command_name(Command::VisualExit) == "visual_exit"@);
        } else if i == 2 {
            reveal_strlit("<Left>");
            lemma_named_key_parses("<Left>"@, NamedKey::Left, leader);
            assert(command_name(Command::VisualLeft) == "visual_left"@);
        } else if i == 3 {
            reveal_strlit("<Right>");
            lemma_named_key_parses("<Right>"@, NamedKey::Right, leader);
            assert(command_name(Command::VisualRight) == "visual_right"@);
        } else if i == 4 {
            reveal_strlit("<Up>");
            lemma_named_key_parses("<Up>"@, NamedKey::Up, leader);
            assert(command_name(Command::VisualUp) == "visual_up"@);
        } else if i == 5 {
            reveal_strlit("a");
            lemma_plain_key_parses("a"@, seq!['a'], leader);
            assert(command_name(Command::HighlightEnter) == "highlight_enter"@);
        } else if i == 6 {
            reveal_strlit("b");
            lemma_plain_key_parses("b"@, seq!['b'], leader);
            assert(command_name(Command::VisualPrevWord) == "visual_prev_word"@);
        } else if i == 7 {
            reveal_strlit("e");
            lemma_plain_key_parses("e"@, seq!['e'], leader);
            assert(command_name(Command::VisualNextLine) == "visual_next_line"@);
        } else if i == 8 {
            reveal_strlit("h");
            lemma_plain_key_parses("h"@, seq!['h'], leader);
            assert(command_name(Command::VisualLeft) == "visual_left"@);
        } else if i == 9 {
            reveal_strlit("j");
            lemma_plain_key_parses("j"@, seq!['j'], leader);
            assert(command_name(Command::VisualDown) == "visual_down"@);
        } else if i == 10 {
            reveal_strlit("k");
            lemma_plain_key_parses("k"@, seq!['k'], leader);
            assert(command_name(Command::VisualUp) == "visual_up"@);
        } else if i == 11 {
            reveal_strlit("l");
            lemma_plain_key_parses("l"@, seq!['l'], leader);
            assert(command_name(Command::VisualRight) == "visual_right"@);
        } else if i == 12 {
            reveal_strlit("o");
            lemma_plain_key_parses("o"@, seq!['o'], leader);
            assert(command_name(Command::VisualSwapEnds) == "visual_swap_ends"@);
        } else if i == 13 {
            reveal_strlit("oc");
            lemma_plain_key_parses("oc"@, seq!['o', 'c'], leader);
            assert(command_name(Command::VisualOtherChar) == "visual_other_char"@);
        } else if i == 14 {
            reveal_strlit("oe");
            lemma_plain_key_parses("oe"@, seq!['o', 'e'], leader);
            assert(command_name(Command::VisualOtherLine) == "visual_other_line"@);
        } else if i == 15 {
            reveal_strlit("oo");
            lemma_plain_key_parses("oo"@, seq!['o', 'o'], leader);
            assert(command_name(Command::VisualSwapEnds) == "visual_swap_ends"@);
        } else if i == 16 {
            reveal_strlit("op");
            lemma_plain_key_parses("op"@, seq!['o', 'p'], leader);
            assert(command_name(Command::VisualOtherParagraph) == "visual_other_paragraph"@);
        } else if i == 17 {
            reveal_strlit("os");
            lemma_plain_key_parses("os"@, seq!['o', 's'], leader);
            assert(command_name(Command::VisualOtherSentence) == "visual_other_sentence"@);
        } else if i == 18 {
            reveal_strlit("ow");
            lemma_plain_key_parses("ow"@, seq!['o', 'w'], leader);
            assert(command_name(Command::VisualOtherWord) == "visual_other_word"@);
        } else if i == 19 {
            reveal_strlit("p");
            lemma_plain_key_parses("p"@, seq!['p'], leader);
            assert(command_name(Command::VisualNextParagraph) == "visual_next_paragraph"@);
        } else if i == 20 {
            reveal_strlit("s");
            lemma_plain_key_parses("s"@, seq!['s'], leader);
            assert(command_name(Command::VisualNextSentence) == "visual_next_sentence"@);
        } else if i == 21 {
            reveal_strlit("v");
            lemma_plain_key_parses("v"@, seq!['v'], leader);
            assert(command_name(Command::VisualExit) == "visual_exit"@);
        } else if i == 22 {
            reveal_strlit("vc");
            lemma_plain_key_parses("vc"@, seq!['v', 'c'], leader);
            assert(command_name(Command::VisualScopeChar) == "visual_scope_char"@);
        } else if i == 23 {
            reveal_strlit("ve");
            lemma_plain_key_parses("ve"@, seq!['v', 'e'], leader);
            assert(command_name(Command::VisualScopeLine) == "visual_scope_line"@);
        } else if i == 24 {
            reveal_strlit("vp");
            lemma_plain_key_parses("vp"@, seq!['v', 'p'], leader);
            assert(command_name(Command::VisualScopeParagraph) == "visual_scope_paragraph"@);
        } else if i == 25 {
            reveal_strlit("vs");
            lemma_plain_key_parses("vs"@, seq!['v', 's'], leader);
            assert(command_name(Command::VisualScopeSentence) == "visual_scope_sentence"@);
        } else if i == 26 {
            reveal_strlit("vw");
            lemma_plain_key_parses("vw"@, seq!['v', 'w'], leader);
            assert(command_name(Command::VisualScopeWord) == "visual_scope_word"@);
        } else if i == 27 {
            reveal_strlit("w");
            lemma_plain_key_parses("w"@, seq!['w'], leader);
            assert(command_name(Command::VisualNextWord) == "visual_next_word"@);
        }
    }
    lemma_table_binds(t, leader);
}

/// Every entry of the built-in `[highlight_keys]` table binds.
proof fn lemma_highlight_table_binds(leader: Seq<Chord>)
    ensures
        overlay_errors(highlight_table(), leader) == Seq::<EntryError>::empty(),
{
    let t = highlight_table();
    assert forall|i: int| 0 <= i < t.len() implies entry_binds(#[trigger] t[i], leader) by {
        if i == 0 {
            reveal_strlit("<BS>");
            lemma_named_key_parses("<BS>"@, NamedKey::Backspace, leader);
            assert(command_name(Command::HighlightDiscard) == "highlight_discard"@);
        } else if i == 1 {
            reveal_strlit("<Down>");
            lemma_named_key_parses("<Down>"@, NamedKey::Down, leader);
            assert(command_name(Command::VisualDown) == "visual_down"@);
        } else if i == 2 {
            reveal_strlit("<Esc>");
            lemma_named_key_parses("<Esc>"@, NamedKey::Escape, leader);
            assert(command_name(Command::HighlightDiscard) == "highlight_discard"@);
        } else if i == 3 {
            reveal_strlit("<Left>");
            lemma_named_key_parses("<Left>"@, NamedKey::Left, leader);
            assert(command_name(Command::VisualLeft) == "visual_left"@);
        } else if i == 4 {
            reveal_strlit("<Right>");
            lemma_named_key_parses("<Right>"@, NamedKey::Right, leader);
            assert(command_name(Command::VisualRight) == "visual_right"@);
        } else if i == 5 {
            reveal_strlit("<Up>");
            lemma_named_key_parses("<Up>"@, NamedKey::Up, leader);
            assert(command_name(Command::VisualUp) == "visual_up"@);
        } else if i == 6 {
            reveal_strlit("a");
            lemma_plain_key_parses("a"@, seq!['a'], leader);
            assert(command_name(Command::HighlightCommit) == "highlight_commit"@);
        } else if i == 7 {
            reveal_strlit("b");
            lemma_plain_key_parses("b"@, seq!['b'], leader);
            assert(command_name(Command::VisualPrevWord) == "visual_prev_word"@);
        } else if i == 8 {
            reveal_strlit("e");
            lemma_plain_key_parses("e"@, seq!['e'], leader);
            assert(command_name(Command::VisualNextLine) == "visual_next_line"@);
        } else if i == 9 {
            reveal_strlit("h");
            lemma_plain_key_parses("h"@, seq!['h'], leader);
            assert(command_name(Command::VisualLeft) == "visual_left"@);
        } else if i == 10 {
            reveal_strlit("j");
            lemma_plain_key_parses("j"@, seq!['j'], leader);
            assert(command_name(Command::VisualDown) == "visual_down"@);
        } else if i == 11 {
            reveal_strlit("k");
            lemma_plain_key_parses("k"@, seq!['k'], leader);
            assert(command_name(Command::VisualUp) == "visual_up"@);
        } else if i == 12 {
            reveal_strlit("l");
            lemma_plain_key_parses("l"@, seq!['l'], leader);
            assert(command_name(Command::VisualRight) == "visual_right"@);
        } else if i == 13 {
            reveal_strlit("o");
            lemma_plain_key_parses("o"@, seq!['o'], leader);
            assert(command_name(Command::VisualSwapEnds) == "visual_swap_ends"@);
        } else if i == 14 {
            reveal_strlit("oc");
            lemma_plain_key_parses("oc"@, seq!['o', 'c'], leader);
            assert(command_name(Command::VisualOtherChar) == "visual_other_char"@);
        } else if i == 15 {
            reveal_strlit("oe");
            lemma_plain_key_parses("oe"@, seq!['o', 'e'], leader);
            assert(command_name(Command::VisualOtherLine) == "visual_other_line"@);
        } else if i == 16 {
            reveal_strlit("oo");
            lemma_plain_key_parses("oo"@, seq!['o', 'o'], leader);
            assert(command_name(Command::VisualSwapEnds) == "visual_swap_ends"@);
        } else if i == 17 {
            reveal_strlit("op");
            lemma_plain_key_parses("op"@, seq!['o', 'p'], leader);
            assert(command_name(Command::VisualOtherParagraph) == "visual_other_paragraph"@);
        } else if i == 18 {
            reveal_strlit("os");
            lemma_plain_key_parses("os"@, seq!['o', 's'], leader);
            assert(command_name(Command::VisualOtherSentence) == "visual_other_sentence"@);
        } else if i == 19 {
            reveal_strlit("ow");
            lemma_plain_key_parses("ow"@, seq!['o', 'w'], leader);
            assert(command_name(Command::VisualOtherWord) == "visual_other_word"@);
        } else if i == 20 {
            reveal_strlit("p");
            lemma_plain_key_parses("p"@, seq!['p'], leader);
            assert(command_name(Command::VisualNextParagraph) == "visual_next_paragraph"@);
        } else if i == 21 {
            reveal_strlit("s");
            lemma_plain_key_parses("s"@, seq!['s'], leader);
            assert(command_name(Command::VisualNextSentence) == "visual_next_sentence"@);
        } else if i == 22 {
            reveal_strlit("w");
            lemma_plain_key_parses("w"@, seq!['w'], leader);
            assert(command_name(Command::VisualNextWord) == "visual_next_word"@);
        }
    }
    lemma_table_binds(t, leader);
}

/// The built-in key tables bind without a single error, whatever the leader:
/// every key sequence in them parses and every command they name exists, so
/// a config that keeps them starts with no keymap warning of its own.
pub proof fn lemma_default_tables_bind(leader: Seq<Chord>)
    ensures
        overlay_errors(normal_table(), leader) == Seq::<EntryError>::empty(),
        overlay_errors(focus_table(), leader) == Seq::<EntryError>::empty(),
        overlay_errors(visual_table(), leader) == Seq::<EntryError>::empty(),
        overlay_errors(highlight_table(), leader) == Seq::<EntryError>::empty(),
        table_warnings(normal_table(), leader) == Seq::<Seq<char>>::empty(),
        table_warnings(focus_table(), leader) == Seq::<Seq<char>>::empty(),
        table_warnings(visual_table(), leader) == Seq::<Seq<char>>::empty(),
        table_warnings(highlight_table(), leader) == Seq::<Seq<char>>::empty(),
{
    lemma_normal_table_binds(leader);
    lemma_focus_table_binds(leader);
    lemma_visual_table_binds(leader);
    lemma_highlight_table_binds(leader);
    assert(table_warnings(normal_table(), leader) =~= Seq::<Seq<char>>::empty());
    assert(table_warnings(focus_table(), leader) =~= Seq::<Seq<char>>::empty());
    assert(table_warnings(visual_table(), leader) =~= Seq::<Seq<char>>::empty());
    assert(table_warnings(highlight_table(), leader) =~= Seq::<Seq<char>>::empty());
}
/// The built-in `[keys]` table binds exactly these 39 keys, each to the command
/// given here and to no other.
pub proof fn lemma_default_normal_bindings()
    ensures
        normal_table().len() == 39,
        normal_table().contains(("j"@, command_name(Command::ScrollDown))),
        normal_table().contains(("k"@, command_name(Command::ScrollUp))),
        normal_table().contains(("h"@, command_name(Command::ScrollLeft))),
        normal_table().contains(("l"@, command_name(Command::ScrollRight))),
        normal_table().contains(("<Down>"@, command_name(Command::ScrollDown))),
        normal_table().contains(("<Up>"@, command_name(Command::ScrollUp))),
        normal_table().contains(("<Left>"@, command_name(Command::ScrollLeft))),
        normal_table().contains(("<Right>"@, command_name(Command::ScrollRight))),
        normal_table().contains(("J"@, command_name(Command::NextPage))),
        normal_table().contains(("K"@, command_name(Command::PrevPage))),
        normal_table().contains(("<PageDown>"@, command_name(Command::NextPage))),
        normal_table().contains(("<PageUp>"@, command_name(Command::PrevPage))),
        normal_table().contains(("<C-d>"@, command_name(Command::ScrollHalfPageDown))),
        normal_table().contains(("<C-u>"@, command_name(Command::ScrollHalfPageUp))),
        normal_table().contains(("<C-f>"@, command_name(Command::ScrollPageDown))),
        normal_table().contains(("<C-b>"@, command_name(Command::ScrollPageUp))),
        normal_table().contains(("gg"@, command_name(Command::GotoFirstPage))),
        normal_table().contains(("G"@, command_name(Command::GotoLastPage))),
        normal_table().contains(("+"@, command_name(Command::ZoomIn))),
        normal_table().contains(("="@, command_name(Command::ZoomIn))),
        normal_table().contains(("-"@, command_name(Command::ZoomOut))),
        normal_table().contains(("zw"@, command_name(Command::FitWidth))),
        normal_table().contains(("z0"@, command_name(Command::ZoomReset))),
        normal_table().contains(("c"@, command_name(Command::FocusEnter))),
        normal_table().contains(("cc"@, command_name(Command::FocusEnterChar))),
        normal_table().contains(("ce"@, command_name(Command::FocusEnterLine))),
        normal_table().contains(("cw"@, command_name(Command::FocusEnterWord))),
        normal_table().contains(("cs"@, command_name(Command::FocusEnterSentence))),
        normal_table().contains(("cp"@, command_name(Command::FocusEnterParagraph))),
        normal_table().contains(("v"@, command_name(Command::VisualEnter))),
        normal_table().contains(("vc"@, command_name(Command::VisualEnterChar))),
        normal_table().contains(("vw"@, command_name(Command::VisualEnterWord))),
        normal_table().contains(("ve"@, command_name(Command::VisualEnterLine))),
        normal_table().contains(("vs"@, command_name(Command::VisualEnterSentence))),
        normal_table().contains(("vp"@, command_name(Command::VisualEnterParagraph))),
        normal_table().contains(("<leader>o"@, command_name(Command::OpenFile))),
        normal_table().contains(("<leader>w"@, command_name(Command::SaveDocument))),
        normal_table().contains(("<leader>q"@, command_name(Command::Quit))),
        normal_table().contains(("<Esc>"@, command_name(Command::Cancel))),
{
    let t = normal_table();
    assert(t[28] == ("j"@, command_name(Command::ScrollDown)));
    assert(t[29] == ("k"@, command_name(Command::ScrollUp)));
    assert(t[27] == ("h"@, command_name(Command::ScrollLeft)));
    assert(t[30] == ("l"@, command_name(Command::ScrollRight)));
    assert(t[6] == ("<Down>"@, command_name(Command::ScrollDown)));
    assert(t[12] == ("<Up>"@, command_name(Command::ScrollUp)));
    assert(t[8] == ("<Left>"@, command_name(Command::ScrollLeft)));
    assert(t[11] == ("<Right>"@, command_name(Command::ScrollRight)));
    assert(t[18] == ("J"@, command_name(Command::NextPage)));
    assert(t[19] == ("K"@, command_name(Command::PrevPage)));
    assert(t[9] == ("<PageDown>"@, command_name(Command::NextPage)));
    assert(t[10] == ("<PageUp>"@, command_name(Command::PrevPage)));
    assert(t[3] == ("<C-d>"@, command_name(Command::ScrollHalfPageDown)));
    assert(t[5] == ("<C-u>"@, command_name(Command::ScrollHalfPageUp)));
    assert(t[4] == ("<C-f>"@, command_name(Command::ScrollPageDown)));
    assert(t[2] == ("<C-b>"@, command_name(Command::ScrollPageUp)));
    assert(t[26] == ("gg"@, command_name(Command::GotoFirstPage)));
    assert(t[17] == ("G"@, command_name(Command::GotoLastPage)));
    assert(t[0] == ("+"@, command_name(Command::ZoomIn)));
    assert(t[16] == ("="@, command_name(Command::ZoomIn)));
    assert(t[1] == ("-"@, command_name(Command::ZoomOut)));
    assert(t[38] == ("zw"@, command_name(Command::FitWidth)));
    assert(t[37] == ("z0"@, command_name(Command::ZoomReset)));
    assert(t[20] == ("c"@, command_name(Command::FocusEnter)));
    assert(t[21] == ("cc"@, command_name(Command::FocusEnterChar)));
    assert(t[22] == ("ce"@, command_name(Command::FocusEnterLine)));
    assert(t[25] == ("cw"@, command_name(Command::FocusEnterWord)));
    assert(t[24] == ("cs"@, command_name(Command::FocusEnterSentence)));
    assert(t[23] == ("cp"@, command_name(Command::FocusEnterParagraph)));
    assert(t[31] == ("v"@, command_name(Command::VisualEnter)));
    assert(t[32] == ("vc"@, command_name(Command::VisualEnterChar)));
    assert(t[36] == ("vw"@, command_name(Command::VisualEnterWord)));
    assert(t[33] == ("ve"@, command_name(Command::VisualEnterLine)));
    assert(t[35] == ("vs"@, command_name(Command::VisualEnterSentence)));
    assert(t[34] == ("vp"@, command_name(Command::VisualEnterParagraph)));
    assert(t[13] == ("<leader>o"@, command_name(Command::OpenFile)));
    assert(t[15] == ("<leader>w"@, command_name(Command::SaveDocument)));
    assert(t[14] == ("<leader>q"@, command_name(Command::Quit)));
    assert(t[7] == ("<Esc>"@, command_name(Command::Cancel)));
}

/// The built-in `[focus_keys]` table binds exactly these 15 keys, each to the command
/// given here and to no other.
pub proof fn lemma_default_focus_bindings()
    ensures
        focus_table().len() == 15,
        focus_table().contains(("h"@, command_name(Command::FocusLeft))),
        focus_table().contains(("j"@, command_name(Command::FocusDown))),
        focus_table().contains(("k"@, command_name(Command::FocusUp))),
        focus_table().contains(("l"@, command_name(Command::FocusRight))),
        focus_table().contains(("<Left>"@, command_name(Command::FocusLeft))),
        focus_table().contains(("<Down>"@, command_name(Command::FocusDown))),
        focus_table().contains(("<Up>"@, command_name(Command::FocusUp))),
        focus_table().contains(("<Right>"@, command_name(Command::FocusRight))),
        focus_table().contains(("w"@, command_name(Command::FocusNextWord))),
        focus_table().contains(("b"@, command_name(Command::FocusPrevWord))),
        focus_table().contains(("e"@, command_name(Command::FocusNextLine))),
        focus_table().contains(("s"@, command_name(Command::FocusNextSentence))),
        focus_table().contains(("p"@, command_name(Command::FocusNextParagraph))),
        focus_table().contains(("a"@, command_name(Command::HighlightEnter))),
        focus_table().contains(("<Esc>"@, command_name(Command::FocusExit))),
{
    let t = focus_table();
    assert(t[8] == ("h"@, command_name(Command::FocusLeft)));
    assert(t[9] == ("j"@, command_name(Command::FocusDown)));
    assert(t[10] == ("k"@, command_name(Command::FocusUp)));
    assert(t[11] == ("l"@, command_name(Command::FocusRight)));
    assert(t[2] == ("<Left>"@, command_name(Command::FocusLeft)));
    assert(t[0] == ("<Down>"@, command_name(Command::FocusDown)));
    assert(t[4] == ("<Up>"@, command_name(Command::FocusUp)));
    assert(t[3] == ("<Right>"@, command_name(Command::FocusRight)));
    assert(t[14] == ("w"@, command_name(Command::FocusNextWord)));
    assert(t[6] == ("b"@, command_name(Command::FocusPrevWord)));
    assert(t[7] == ("e"@, command_name(Command::FocusNextLine)));
    assert(t[13] == ("s"@, command_name(Command::FocusNextSentence)));
    assert(t[12] == ("p"@, command_name(Command::FocusNextParagraph)));
    assert(t[5] == ("a"@, command_name(Command::HighlightEnter)));
    assert(t[1] == ("<Esc>"@, command_name(Command::FocusExit)));
}

/// The built-in `[visual_keys]` table binds exactly these 28 keys, each to the command
/// given here and to no other.
pub proof fn lemma_default_visual_bindings()
    ensures
        visual_table().len() == 28,
        visual_table().contains(("h"@, command_name(Command::VisualLeft))),
        visual_table().contains(("j"@, command_name(Command::VisualDown))),
        visual_table().contains(("k"@, command_name(Command::VisualUp))),
        visual_table().contains(("l"@, command_name(Command::VisualRight))),
        visual_table().contains(("<Left>"@, command_name(Command::VisualLeft))),
        visual_table().contains(("<Down>"@, command_name(Command::VisualDown))),
        visual_table().contains(("<Up>"@, command_name(Command::VisualUp))),
        visual_table().contains(("<Right>"@, command_name(Command::VisualRight))),
        visual_table().contains(("w"@, command_name(Command::VisualNextWord))),
        visual_table().contains(("b"@, command_name(Command::VisualPrevWord))),
        visual_table().contains(("e"@, command_name(Command::VisualNextLine))),
        visual_table().contains(("s"@, command_name(Command::VisualNextSentence))),
        visual_table().contains(("p"@, command_name(Command::VisualNextParagraph))),
        visual_table().contains(("o"@, command_name(Command::VisualSwapEnds))),
        visual_table().contains(("oo"@, command_name(Command::VisualSwapEnds))),
        visual_table().contains(("oc"@, command_name(Command::VisualOtherChar))),
        visual_table().contains(("ow"@, command_name(Command::VisualOtherWord))),
        visual_table().contains(("oe"@, command_name(Command::VisualOtherLine))),
        visual_table().contains(("os"@, command_name(Command::VisualOtherSentence))),
        visual_table().contains(("op"@, command_name(Command::VisualOtherParagraph))),
        visual_table().contains(("v"@, command_name(Command::VisualExit))),
        visual_table().contains(("vc"@, command_name(Command::VisualScopeChar))),
        visual_table().contains(("vw"@, command_name(Command::VisualScopeWord))),
        visual_table().contains(("ve"@, command_name(Command::VisualScopeLine))),
        visual_table().contains(("vs"@, command_name(Command::VisualScopeSentence))),
        visual_table().contains(("vp"@, command_name(Command::VisualScopeParagraph))),
        visual_table().contains(("a"@, command_name(Command::HighlightEnter))),
        visual_table().contains(("<Esc>"@, command_name(Command::VisualExit))),
{
    let t = visual_table();
    assert(t[8] == ("h"@, command_name(Command::VisualLeft)));
    assert(t[9] == ("j"@, command_name(Command::VisualDown)));
    assert(t[10] == ("k"@, command_name(Command::VisualUp)));
    assert(t[11] == ("l"@, command_name(Command::VisualRight)));
    assert(t[2] == ("<Left>"@, command_name(Command::VisualLeft)));
    assert(t[0] == ("<Down>"@, command_name(Command::VisualDown)));
    assert(t[4] == ("<Up>"@, command_name(Command::VisualUp)));
    assert(t[3] == ("<Right>"@, command_name(Command::VisualRight)));
    assert(t[27] == ("w"@, command_name(Command::VisualNextWord)));
    assert(t[6] == ("b"@, command_name(Command::VisualPrevWord)));
    assert(t[7] == ("e"@, command_name(Command::VisualNextLine)));
    assert(t[20] == ("s"@, command_name(Command::VisualNextSentence)));
    assert(t[19] == ("p"@, command_name(Command::VisualNextParagraph)));
    assert(t[12] == ("o"@, command_name(Command::VisualSwapEnds)));
    assert(t[15] == ("oo"@, command_name(Command::VisualSwapEnds)));
    assert(t[13] == ("oc"@, command_name(Command::VisualOtherChar)));
    assert(t[18] == ("ow"@, command_name(Command::VisualOtherWord)));
    assert(t[14] == ("oe"@, command_name(Command::VisualOtherLine)));
    assert(t[17] == ("os"@, command_name(Command::VisualOtherSentence)));
    assert(t[16] == ("op"@, command_name(Command::VisualOtherParagraph)));
    assert(t[21] == ("v"@, command_name(Command::VisualExit)));
    assert(t[22] == ("vc"@, command_name(Command::VisualScopeChar)));
    assert(t[26] == ("vw"@, command_name(Command::VisualScopeWord)));
    assert(t[23] == ("ve"@, command_name(Command::VisualScopeLine)));
    assert(t[25] == ("vs"@, command_name(Command::VisualScopeSentence)));
    assert(t[24] == ("vp"@, command_name(Command::VisualScopeParagraph)));
    assert(t[5] == ("a"@, command_name(Command::HighlightEnter)));
    assert(t[1] == ("<Esc>"@, command_name(Command::VisualExit)));
}

/// The built-in `[highlight_keys]` table binds exactly these 23 keys, each to the command
/// given here and to no other.
pub proof fn lemma_default_highlight_bindings()
    ensures
        highlight_table().len() == 23,
        highlight_table().contains(("h"@, command_name(Command::VisualLeft))),
        highlight_table().contains(("j"@, command_name(Command::VisualDown))),
        highlight_table().contains(("k"@, command_name(Command::VisualUp))),
        highlight_table().contains(("l"@, command_name(Command::VisualRight))),
        highlight_table().contains(("<Left>"@, command_name(Command::VisualLeft))),
        highlight_table().contains(("<Down>"@, command_name(Command::VisualDown))),
        highlight_table().contains(("<Up>"@, command_name(Command::VisualUp))),
        highlight_table().contains(("<Right>"@, command_name(Command::VisualRight))),
        highlight_table().contains(("w"@, command_name(Command::VisualNextWord))),
        highlight_table().contains(("b"@, command_name(Command::VisualPrevWord))),
        highlight_table().contains(("e"@, command_name(Command::VisualNextLine))),
        highlight_table().contains(("s"@, command_name(Command::VisualNextSentence))),
        highlight_table().contains(("p"@, command_name(Command::VisualNextParagraph))),
        highlight_table().contains(("o"@, command_name(Command::VisualSwapEnds))),
        highlight_table().contains(("oo"@, command_name(Command::VisualSwapEnds))),
        highlight_table().contains(("oc"@, command_name(Command::VisualOtherChar))),
        highlight_table().contains(("ow"@, command_name(Command::VisualOtherWord))),
        highlight_table().contains(("oe"@, command_name(Command::VisualOtherLine))),
        highlight_table().contains(("os"@, command_name(Command::VisualOtherSentence))),
        highlight_table().contains(("op"@, command_name(Command::VisualOtherParagraph))),
        highlight_table().contains(("a"@, command_name(Command::HighlightCommit))),
        highlight_table().contains(("<Esc>"@, command_name(Command::HighlightDiscard))),
        highlight_table().contains(("<BS>"@, command_name(Command::HighlightDiscard))),
{
    let t = highlight_table();
    assert(t[9] == ("h"@, command_name(Command::VisualLeft)));
    assert(t[10] == ("j"@, command_name(Command::VisualDown)));
    assert(t[11] == ("k"@, command_name(Command::VisualUp)));
    assert(t[12] == ("l"@, command_name(Command::VisualRight)));
    assert(t[3] == ("<Left>"@, command_name(Command::VisualLeft)));
    assert(t[1] == ("<Down>"@, command_name(Command::VisualDown)));
    assert(t[5] == ("<Up>"@, command_name(Command::VisualUp)));
    assert(t[4] == ("<Right>"@, command_name(Command::VisualRight)));
    assert(t[22] == ("w"@, command_name(Command::VisualNextWord)));
    assert(t[7] == ("b"@, command_name(Command::VisualPrevWord)));
    assert(t[8] == ("e"@, command_name(Command::VisualNextLine)));
    assert(t[21] == ("s"@, command_name(Command::VisualNextSentence)));
    assert(t[20] == ("p"@, command_name(Command::VisualNextParagraph)));
    assert(t[13] == ("o"@, command_name(Command::VisualSwapEnds)));
    assert(t[16] == ("oo"@, command_name(Command::VisualSwapEnds)));
    assert(t[14] == ("oc"@, command_name(Command::VisualOtherChar)));
    assert(t[19] == ("ow"@, command_name(Command::VisualOtherWord)));
    assert(t[15] == ("oe"@, command_name(Command::VisualOtherLine)));
    assert(t[18] == ("os"@, command_name(Command::VisualOtherSentence)));
    assert(t[17] == ("op"@, command_name(Command::VisualOtherParagraph)));
    assert(t[6] == ("a"@, command_name(Command::HighlightCommit)));
    assert(t[2] == ("<Esc>"@, command_name(Command::HighlightDiscard)));
    assert(t[0] == ("<BS>"@, command_name(Command::HighlightDiscard)));
}
} // verus!
