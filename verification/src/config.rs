//! Configuration defaults and the rules that combine them with a user's file.
//!
//! Configuration lives in a single human-editable TOML file. Reading and
//! deserialising it is the shell's job; this module owns what the values
//! mean once they are read: the built-in key tables, how a user's tables
//! extend them, the colour syntax, the `[input]` and `[files]` sections, the
//! documented default file, and the hint shown for configs written for the
//! old per-scope focus tables.
//!
//! Design rule: invalid configuration must never abort the application. A
//! failed load yields a [`ConfigError`] whose message is good enough to fix
//! the file, and callers fall back to the defaults.

use vstd::prelude::*;
use vstd::string::StringExecFns;

use crate::text::{
    contains_chars, decimal, decimal_string, hex_value, owned, push_char, spec_is_hex_digit, str_chars,
    str_eq, text_contains,
};

verus! {

/// The colour written by `#rrggbb`, or `None` when `s` is anything else.
pub open spec fn hex_color(s: Seq<char>) -> Option<(u8, u8, u8)> {
    if s.len() == 7 && s[0] == '#' && (forall|i: int| 1 <= i < 7 ==> spec_is_hex_digit(s[i])) {
        Some(
            (
                (16 * hex_value(s[1]) + hex_value(s[2])) as u8,
                (16 * hex_value(s[3]) + hex_value(s[4])) as u8,
                (16 * hex_value(s[5]) + hex_value(s[6])) as u8,
            ),
        )
    } else {
        None
    }
}

/// Parse `#rrggbb` into its components. Returns `None` for anything else --
/// wrong length, missing `#`, non-hex digits -- so the caller can fall back to
/// a default and warn rather than rendering an invisible overlay.
pub fn parse_hex_color(s: &str) -> (r: Option<(u8, u8, u8)>)
    ensures
        r == hex_color(s@),
{
    let cs = str_chars(s);
    if cs.len() != 7 || cs[0] != '#' {
        return None;
    }
    let mut i: usize = 1;
    while i < 7
        invariant
            cs@ == s@,
            cs@.len() == 7,
            1 <= i <= 7,
            forall|k: int| 1 <= k < i ==> spec_is_hex_digit(cs@[k]),
        decreases 7 - i,
    {
        if !is_hex_digit(cs[i]) {
            return None;
        }
        i = i + 1;
    }
    let r = hex_pair(cs[1], cs[2]);
    let g = hex_pair(cs[3], cs[4]);
    let b = hex_pair(cs[5], cs[6]);
    Some((r, g, b))
}

/// Whether `c` is an ASCII hexadecimal digit.
fn is_hex_digit(c: char) -> (r: bool)
    ensures
        r == spec_is_hex_digit(c),
{
    ('0' <= c && c <= '9') || ('a' <= c && c <= 'f') || ('A' <= c && c <= 'F')
}

/// The byte written by two hexadecimal digits.
fn hex_pair(hi: char, lo: char) -> (r: u8)
    requires
        spec_is_hex_digit(hi),
        spec_is_hex_digit(lo),
    ensures
        r == 16 * hex_value(hi) + hex_value(lo),
{
    let h = hex_digit_value(hi);
    let l = hex_digit_value(lo);
    16 * h + l
}

/// The value of one hexadecimal digit.
fn hex_digit_value(c: char) -> (r: u8)
    requires
        spec_is_hex_digit(c),
    ensures
        r == hex_value(c),
        r < 16,
{
    if '0' <= c && c <= '9' {
        ((c as u32) - ('0' as u32)) as u8
    } else if 'a' <= c && c <= 'f' {
        ((c as u32) - ('a' as u32) + 10) as u8
    } else {
        ((c as u32) - ('A' as u32) + 10) as u8
    }
}

/// The text of each entry of a key table: the key sequence and the command name.
pub open spec fn pairs_view(t: Seq<(String, String)>) -> Seq<(Seq<char>, Seq<char>)> {
    t.map_values(|p: (String, String)| (p.0@, p.1@))
}

/// One key-table entry holding copies of `key` and `command`.
fn entry(key: &str, command: &str) -> (p: (String, String))
    ensures
        p.0@ == key@,
        p.1@ == command@,
{
    (owned(key), owned(command))
}

/// Built-in keybindings of the normal `[keys]` table. The entries, in key order.
pub open spec fn normal_table() -> Seq<(Seq<char>, Seq<char>)> {
    seq![
        ("+"@, "zoom_in"@),
        ("-"@, "zoom_out"@),
        ("<C-b>"@, "scroll_page_up"@),
        ("<C-d>"@, "scroll_half_page_down"@),
        ("<C-f>"@, "scroll_page_down"@),
        ("<C-u>"@, "scroll_half_page_up"@),
        ("<Down>"@, "scroll_down"@),
        ("<Esc>"@, "cancel"@),
        ("<Left>"@, "scroll_left"@),
        ("<PageDown>"@, "next_page"@),
        ("<PageUp>"@, "prev_page"@),
        ("<Right>"@, "scroll_right"@),
        ("<Up>"@, "scroll_up"@),
        ("<leader>o"@, "open_file"@),
        ("<leader>q"@, "quit"@),
        ("<leader>w"@, "save_document"@),
        ("="@, "zoom_in"@),
        ("G"@, "goto_last_page"@),
        ("J"@, "next_page"@),
        ("K"@, "prev_page"@),
        ("c"@, "focus_enter"@),
        ("cc"@, "focus_enter_char"@),
        ("ce"@, "focus_enter_line"@),
        ("cp"@, "focus_enter_paragraph"@),
        ("cs"@, "focus_enter_sentence"@),
        ("cw"@, "focus_enter_word"@),
        ("gg"@, "goto_first_page"@),
        ("h"@, "scroll_left"@),
        ("j"@, "scroll_down"@),
        ("k"@, "scroll_up"@),
        ("l"@, "scroll_right"@),
        ("v"@, "visual_enter"@),
        ("vc"@, "visual_enter_char"@),
        ("ve"@, "visual_enter_line"@),
        ("vp"@, "visual_enter_paragraph"@),
        ("vs"@, "visual_enter_sentence"@),
        ("vw"@, "visual_enter_word"@),
        ("z0"@, "zoom_reset"@),
        ("zw"@, "fit_width"@),
    ]
}

/// Built-in focus-mode keybindings (the `[focus_keys]` table). The entries, in key order.
pub open spec fn focus_table() -> Seq<(Seq<char>, Seq<char>)> {
    seq![
        ("<Down>"@, "focus_down"@),
        ("<Esc>"@, "focus_exit"@),
        ("<Left>"@, "focus_left"@),
        ("<Right>"@, "focus_right"@),
        ("<Up>"@, "focus_up"@),
        ("a"@, "highlight_enter"@),
        ("b"@, "focus_prev_word"@),
        ("e"@, "focus_next_line"@),
        ("h"@, "focus_left"@),
        ("j"@, "focus_down"@),
        ("k"@, "focus_up"@),
        ("l"@, "focus_right"@),
        ("p"@, "focus_next_paragraph"@),
        ("s"@, "focus_next_sentence"@),
        ("w"@, "focus_next_word"@),
    ]
}

/// Built-in visual-mode keybindings (the `[visual_keys]` table). The entries, in key order.
pub open spec fn visual_table() -> Seq<(Seq<char>, Seq<char>)> {
    seq![
        ("<Down>"@, "visual_down"@),
        ("<Esc>"@, "visual_exit"@),
        ("<Left>"@, "visual_left"@),
        ("<Right>"@, "visual_right"@),
        ("<Up>"@, "visual_up"@),
        ("a"@, "highlight_enter"@),
        ("b"@, "visual_prev_word"@),
        ("e"@, "visual_next_line"@),
        ("h"@, "visual_left"@),
        ("j"@, "visual_down"@),
        ("k"@, "visual_up"@),
        ("l"@, "visual_right"@),
        ("o"@, "visual_swap_ends"@),
        ("oc"@, "visual_other_char"@),
        ("oe"@, "visual_other_line"@),
        ("oo"@, "visual_swap_ends"@),
        ("op"@, "visual_other_paragraph"@),
        ("os"@, "visual_other_sentence"@),
        ("ow"@, "visual_other_word"@),
        ("p"@, "visual_next_paragraph"@),
        ("s"@, "visual_next_sentence"@),
        ("v"@, "visual_exit"@),
        ("vc"@, "visual_scope_char"@),
        ("ve"@, "visual_scope_line"@),
        ("vp"@, "visual_scope_paragraph"@),
        ("vs"@, "visual_scope_sentence"@),
        ("vw"@, "visual_scope_word"@),
        ("w"@, "visual_next_word"@),
    ]
}

/// Built-in highlight-mode keybindings (the `[highlight_keys]` table). The entries, in key order.
pub open spec fn highlight_table() -> Seq<(Seq<char>, Seq<char>)> {
    seq![
        ("<BS>"@, "highlight_discard"@),
        ("<Down>"@, "visual_down"@),
        ("<Esc>"@, "highlight_discard"@),
        ("<Left>"@, "visual_left"@),
        ("<Right>"@, "visual_right"@),
        ("<Up>"@, "visual_up"@),
        ("a"@, "highlight_commit"@),
        ("b"@, "visual_prev_word"@),
        ("e"@, "visual_next_line"@),
        ("h"@, "visual_left"@),
        ("j"@, "visual_down"@),
        ("k"@, "visual_up"@),
        ("l"@, "visual_right"@),
        ("o"@, "visual_swap_ends"@),
        ("oc"@, "visual_other_char"@),
        ("oe"@, "visual_other_line"@),
        ("oo"@, "visual_swap_ends"@),
        ("op"@, "visual_other_paragraph"@),
        ("os"@, "visual_other_sentence"@),
        ("ow"@, "visual_other_word"@),
        ("p"@, "visual_next_paragraph"@),
        ("s"@, "visual_next_sentence"@),
        ("w"@, "visual_next_word"@),
    ]
}

/// Built-in keybindings of the normal `[keys]` table.
///
/// The table is returned in key order, one entry per key sequence.
pub fn default_keybindings() -> (t: Vec<(String, String)>)
    ensures
        pairs_view(t@) == normal_table(),
{
    let t = vec![
        entry("+", "zoom_in"),
        entry("-", "zoom_out"),
        entry("<C-b>", "scroll_page_up"),
        entry("<C-d>", "scroll_half_page_down"),
        entry("<C-f>", "scroll_page_down"),
        entry("<C-u>", "scroll_half_page_up"),
        entry("<Down>", "scroll_down"),
        entry("<Esc>", "cancel"),
        entry("<Left>", "scroll_left"),
        entry("<PageDown>", "next_page"),
        entry("<PageUp>", "prev_page"),
        entry("<Right>", "scroll_right"),
        entry("<Up>", "scroll_up"),
        entry("<leader>o", "open_file"),
        entry("<leader>q", "quit"),
        entry("<leader>w", "save_document"),
        entry("=", "zoom_in"),
        entry("G", "goto_last_page"),
        entry("J", "next_page"),
        entry("K", "prev_page"),
        entry("c", "focus_enter"),
        entry("cc", "focus_enter_char"),
        entry("ce", "focus_enter_line"),
        entry("cp", "focus_enter_paragraph"),
        entry("cs", "focus_enter_sentence"),
        entry("cw", "focus_enter_word"),
        entry("gg", "goto_first_page"),
        entry("h", "scroll_left"),
        entry("j", "scroll_down"),
        entry("k", "scroll_up"),
        entry("l", "scroll_right"),
        entry("v", "visual_enter"),
        entry("vc", "visual_enter_char"),
        entry("ve", "visual_enter_line"),
        entry("vp", "visual_enter_paragraph"),
        entry("vs", "visual_enter_sentence"),
        entry("vw", "visual_enter_word"),
        entry("z0", "zoom_reset"),
        entry("zw", "fit_width"),
    ];
    assert(pairs_view(t@) =~= normal_table());
    t
}

/// Built-in focus-mode keybindings (the `[focus_keys]` table).
///
/// The table is returned in key order, one entry per key sequence.
pub fn default_focus_keybindings() -> (t: Vec<(String, String)>)
    ensures
        pairs_view(t@) == focus_table(),
{
    let t = vec![
        entry("<Down>", "focus_down"),
        entry("<Esc>", "focus_exit"),
        entry("<Left>", "focus_left"),
        entry("<Right>", "focus_right"),
        entry("<Up>", "focus_up"),
        entry("a", "highlight_enter"),
        entry("b", "focus_prev_word"),
        entry("e", "focus_next_line"),
        entry("h", "focus_left"),
        entry("j", "focus_down"),
        entry("k", "focus_up"),
        entry("l", "focus_right"),
        entry("p", "focus_next_paragraph"),
        entry("s", "focus_next_sentence"),
        entry("w", "focus_next_word"),
    ];
    assert(pairs_view(t@) =~= focus_table());
    t
}

/// Built-in visual-mode keybindings (the `[visual_keys]` table).
///
/// The table is returned in key order, one entry per key sequence.
pub fn default_visual_keybindings() -> (t: Vec<(String, String)>)
    ensures
        pairs_view(t@) == visual_table(),
{
    let t = vec![
        entry("<Down>", "visual_down"),
        entry("<Esc>", "visual_exit"),
        entry("<Left>", "visual_left"),
        entry("<Right>", "visual_right"),
        entry("<Up>", "visual_up"),
        entry("a", "highlight_enter"),
        entry("b", "visual_prev_word"),
        entry("e", "visual_next_line"),
        entry("h", "visual_left"),
        entry("j", "visual_down"),
        entry("k", "visual_up"),
        entry("l", "visual_right"),
        entry("o", "visual_swap_ends"),
        entry("oc", "visual_other_char"),
        entry("oe", "visual_other_line"),
        entry("oo", "visual_swap_ends"),
        entry("op", "visual_other_paragraph"),
        entry("os", "visual_other_sentence"),
        entry("ow", "visual_other_word"),
        entry("p", "visual_next_paragraph"),
        entry("s", "visual_next_sentence"),
        entry("v", "visual_exit"),
        entry("vc", "visual_scope_char"),
        entry("ve", "visual_scope_line"),
        entry("vp", "visual_scope_paragraph"),
        entry("vs", "visual_scope_sentence"),
        entry("vw", "visual_scope_word"),
        entry("w", "visual_next_word"),
    ];
    assert(pairs_view(t@) =~= visual_table());
    t
}

/// Built-in highlight-mode keybindings (the `[highlight_keys]` table).
///
/// The table is returned in key order, one entry per key sequence.
pub fn default_highlight_keybindings() -> (t: Vec<(String, String)>)
    ensures
        pairs_view(t@) == highlight_table(),
{
    let t = vec![
        entry("<BS>", "highlight_discard"),
        entry("<Down>", "visual_down"),
        entry("<Esc>", "highlight_discard"),
        entry("<Left>", "visual_left"),
        entry("<Right>", "visual_right"),
        entry("<Up>", "visual_up"),
        entry("a", "highlight_commit"),
        entry("b", "visual_prev_word"),
        entry("e", "visual_next_line"),
        entry("h", "visual_left"),
        entry("j", "visual_down"),
        entry("k", "visual_up"),
        entry("l", "visual_right"),
        entry("o", "visual_swap_ends"),
        entry("oc", "visual_other_char"),
        entry("oe", "visual_other_line"),
        entry("oo", "visual_swap_ends"),
        entry("op", "visual_other_paragraph"),
        entry("os", "visual_other_sentence"),
        entry("ow", "visual_other_word"),
        entry("p", "visual_next_paragraph"),
        entry("s", "visual_next_sentence"),
        entry("w", "visual_next_word"),
    ];
    assert(pairs_view(t@) =~= highlight_table());
    t
}

/// What `<leader>` stands for unless the config says otherwise: Space,
/// unbound in every mode and easy to reach with either thumb.
pub const DEFAULT_LEADER: &'static str = "<Space>";

/// The `[input]` section: how long a partial key sequence waits, and what
/// `<leader>` stands for.
#[derive(Debug, Clone, PartialEq, Eq)]
pub struct InputConfig {
    /// Milliseconds a partial sequence waits before it resolves on its own.
    ///
    /// This is what lets a key that is both a binding and a prefix — `c`, `v`,
    /// or `o` in visual mode — be used on its own: press it, pause, and it
    /// acts. Sequences typed at normal speed never reach the pause. `0`
    /// disables it, restoring "only the next key press ends the wait".
    pub timeout_ms: u32,
    /// The key sequence `<leader>` stands for in keybindings.
    ///
    /// A leader is not a mechanism of its own: `<leader>w` is expanded at load
    /// time into the leader's chords followed by `w`, so it is an ordinary
    /// sequence by the time the keymap sees it.
    pub leader: String,
}

impl Default for InputConfig {
    fn default() -> (r: Self)
        ensures
            r.timeout_ms == 500,
            r.leader@ == "<Space>"@,
    {
        InputConfig {
            // Long enough that ordinary two-key chords never trip it, short
            // enough that a deliberate pause feels immediate.
            timeout_ms: 500,
            // Space: unbound in every mode, easy to reach with either thumb, and
            // the convention users arrive with from Vim configurations.
            leader: owned(DEFAULT_LEADER),
        }
    }
}

/// The `[files]` section: file-dialog and path behaviour.
#[derive(Debug, Clone, PartialEq, Eq)]
pub struct FilesConfig {
    /// Starting directory for the Open dialog. When unset, or pointing at a
    /// path that is not an existing directory, the launch (current working)
    /// directory is used instead.
    pub open_dir: Option<String>,
}

impl Default for FilesConfig {
    fn default() -> (r: Self)
        ensures
            r.open_dir is None,
    {
        FilesConfig { open_dir: None }
    }
}

/// One binding as the config file writes it: `"key" = "command"`.
pub open spec fn binding_line(e: (Seq<char>, Seq<char>)) -> Seq<char> {
    "\""@ + e.0 + "\" = \""@ + e.1 + "\"\n"@
}

/// Every binding of `t`, one line each, in table order.
pub open spec fn binding_lines(t: Seq<(Seq<char>, Seq<char>)>) -> Seq<char>
    decreases t.len(),
{
    if t.len() == 0 {
        Seq::empty()
    } else {
        binding_lines(t.drop_last()) + binding_line(t.last())
    }
}

/// A `[name]` table header followed by every binding of `t`.
pub open spec fn keytable_text(name: Seq<char>, t: Seq<(Seq<char>, Seq<char>)>) -> Seq<char> {
    "["@ + name + "]\n"@ + binding_lines(t)
}

/// Emit a `[table]` header followed by every binding as a quoted active line.
/// The tables are kept in key order, giving stable output.
fn push_keytable(out: &mut String, table: &str, bindings: &[(String, String)])
    ensures
        final(out)@ == old(out)@ + keytable_text(table@, pairs_view(bindings@)),
{
    let ghost start = out@;
    let ghost t = pairs_view(bindings@);
    out.append("[");
    out.append(table);
    out.append("]\n");
    let ghost header = "["@ + table@ + "]\n"@;
    assert(out@ =~= start + header + binding_lines(t.take(0)));
    let mut i: usize = 0;
    while i < bindings.len()
        invariant
            i <= bindings@.len(),
            t == pairs_view(bindings@),
            out@ =~= start + header + binding_lines(t.take(i as int)),
        decreases bindings@.len() - i,
    {
        let ghost before = out@;
        out.append("\"");
        out.append(bindings[i].0.as_str());
        out.append("\" = \"");
        out.append(bindings[i].1.as_str());
        out.append("\"\n");
        proof {
            assert(t.take(i + 1).drop_last() =~= t.take(i as int));
            assert(out@ =~= before + binding_line(t[i as int]));
        }
        i = i + 1;
    }
    assert(t.take(bindings@.len() as int) =~= t);
}

/// The documented default configuration file.
pub open spec fn config_doc_text() -> Seq<char> {
    Seq::<char>::empty()
        + "# syodep configuration — generated by `syodep --defaults`.\n#\n# Every option below is set to its built-in default. Copy this file to:\n#   Linux:   ~/.config/syodep/config.toml\n#   Windows: %APPDATA%\\syodep\\config.toml\n#\n# Everything here is optional; deleting a value falls back to the same\n# default shown. An invalid file never prevents syodep from starting: the\n# error is shown in the status bar and defaults are used instead.\n# See docs/config.md for the full reference.\n\n[view]\n# Pixels moved per scroll step (j / k).\nscroll_step = 60.0\n# Pixels moved per horizontal scroll step (h / l).\nhorizontal_scroll_step = 60.0\n# Pixels kept between the focused text and the top or bottom edge while\n# the view follows it, so there is always context past the highlight.\n# Not applied at the very start and end of the document, where there is\n# nothing to scroll to. 0.0 lets the highlight sit flush with the edge.\nscroll_off = 80.0\n# Gap between pages, in PDF points (1/72 inch at 100% zoom).\npage_gap = 12.0\n# Zoom factor used when opening a document without a saved position...\ndefault_zoom = 1.0\n# ...unless this is true, in which case the page is fitted to the window width.\nfit_width_on_open = true\n# Multiplicative zoom step for zoom_in / zoom_out.\nzoom_step = 1.1\n# Canvas background color (#rrggbb).\nbackground = \"#1e1e1e\"\n# Highlight for focus mode. Every scope shares one colour, so the\n# highlight tells you that focus is active rather than which\n# granularity you are in.\nfocus_color = \"#5b9bd5\"\n# Opacity of the focus highlight, 0.0 to 1.0.\nfocus_opacity = 0.55\n# Highlight for the visual-mode selection (#rrggbb).\nvisual_color = \"#8a8a8a\"\n# Opacity of the selection highlight, 0.0 to 1.0.\nvisual_opacity = 0.55\n# Colour of a highlight (#rrggbb), while you place it and once it is\n# stored. This is also the colour written into the PDF by the save\n# command, so it is what other readers show too.\nhighlight_color = \"#ffe066\"\n# Opacity of the highlight overlay, 0.0 to 1.0. Applies to syodep's own\n# overlay only: a highlight saved into the PDF is painted by the reader\n# with Multiply blending, which has no opacity of its own.\nhighlight_opacity = 0.55\n# Treat each detected table as one stop from line scope up, drawn as\n# a single box (word and char scope still step through its cells).\n# Images are always single stops; this only controls table detection,\n# which costs a second text pass per page.\ndetect_tables = true\n# Treat each heading as one step at sentence and paragraph scope,\n# so it is not glued to the text below it for want of a full stop.\n# Word and line scope still move through a heading normally.\ndetect_headings = true\n# Treat each display equation as one stop from line scope up, drawn as\n# a single box, so a formula is not glued to the sentence before it, a\n# stop inside it does not split it, and an aligned system is one step\n# rather than one per row. Word and char scope still walk through one.\n# Maths written inline in a sentence is left alone.\ndetect_equations = true\n# Skip page furniture when moving: running headers, page numbers, and\n# text that does not run in the page's reading direction, such as a\n# sideways margin stamp or an inclined watermark. Headers and footers\n# are recognised by repeating across pages, never by position alone.\nskip_page_furniture = true\n\n[files]\n# Starting directory for the Open dialog (<leader>o). When unset, the\n# dialog opens in the directory syodep was launched from. If the path below\n# does not exist (or is not a directory), syodep falls back to the launch\n# directory. Run `syodep --check` to see which directory is in effect.\n# Use an absolute path (\"~\" is not expanded). Unset by default:\n# open_dir = \"/home/me/papers\"\n\n[input]\n# How long (milliseconds) a half-typed key sequence waits before it acts\n# on its own. This is what lets a key that is both a command and the\n# start of a longer one -- \"c\", \"v\", or \"o\" while selecting -- be used\n# by itself: press it, pause, and it acts. Sequences typed at normal\n# speed never reach the pause. Set to 0 to switch it off, so only the\n# next key press ever ends the wait.\ntimeout_ms = "@
        + decimal(500)
        + "\n# The key sequence \"<leader>\" stands for in keybindings below. It is\n# expanded when the config is loaded, so \"<leader>w\" is just the leader\n# key followed by \"w\" as far as everything else is concerned.\nleader = \""@
        + "<Space>"@
        + "\"\n\n# Keybindings: \"key sequence\" = \"command\". The entries below are the\n# built-in defaults; in your own config you only need to list changes,\n# which ADD TO or OVERRIDE these.\n# Key syntax (see docs/keybindings.md): plain chars (\"j\", \"G\", \"+\"),\n# sequences (\"gg\", \"zw\"), special keys in angle brackets (\"<Esc>\", \"<CR>\",\n# \"<Space>\", \"<Up>\", \"<PageDown>\", ...), modifiers inside the brackets\n# (\"<C-d>\" = ctrl+d, \"<A-x>\" = alt+x, \"<C-A-Left>\").\n# Command names are listed in docs/commands.md.\n"@
        + keytable_text("keys"@, normal_table())
        + "\n# Focus-mode keybindings (active after pressing \"cc\", \"cw\", \"ce\", \"cs\" or\n# \"cp\"). These overlay the normal [keys] while focus mode is active: hjkl and\n# the arrows move the highlight by one unit of the active scope, w/e/b move a\n# word at a time whatever the scope, and <Esc> exits.\n# One table covers every scope, because the commands dispatch on the scope:\n# \"focus_left\" is a character in char scope, a word in word scope, a column\n# jump in line scope and the previous unit in sentence/paragraph scope.\n"@
        + keytable_text("focus_keys"@, focus_table())
        + "\n# Visual-mode keybindings (active after pressing \"v\"). hjkl/arrows grow the\n# selection by one unit of the active end's scope. \"v\" plus a scope letter\n# changes the moving end's scope, \"o\" switches ends and \"o\" plus a scope\n# letter does both. <Esc> exits to the mode visual mode was entered from.\n"@
        + keytable_text("visual_keys"@, visual_table())
        + "\n# Highlight-mode keybindings (active after pressing \"a\" while focused or\n# selecting). The motions are the visual-mode ones bound to the very same\n# commands, because a pending highlight is a selection: hjkl/arrows and\n# w/e/b/s/p reshape it, \"o\" switches ends, \"o\" plus a scope letter does\n# both. \"a\" again keeps the highlight and returns to selecting; <Esc> or\n# <BS> throws it away and restores what you had. \"v\" and \"c\" are not\n# listed because they fall through to [keys], where they keep the\n# highlight on the way into the mode they name.\n"@
        + keytable_text("highlight_keys"@, highlight_table())
}

/// Render a documented `config.toml` with every option set to its built-in
/// default.
///
/// Keybindings are emitted as active lines (each equal to its default) so the
/// file doubles as a complete reference; copying it verbatim to the config
/// path is a no-op relative to the built-in behaviour.
pub fn default_config_doc() -> (doc: String)
    ensures
        doc@ == config_doc_text(),
{
    let input = InputConfig::default();
    let mut out = String::new();
    out.append("# syodep configuration — generated by `syodep --defaults`.\n#\n# Every option below is set to its built-in default. Copy this file to:\n#   Linux:   ~/.config/syodep/config.toml\n#   Windows: %APPDATA%\\syodep\\config.toml\n#\n# Everything here is optional; deleting a value falls back to the same\n# default shown. An invalid file never prevents syodep from starting: the\n# error is shown in the status bar and defaults are used instead.\n# See docs/config.md for the full reference.\n\n[view]\n# Pixels moved per scroll step (j / k).\nscroll_step = 60.0\n# Pixels moved per horizontal scroll step (h / l).\nhorizontal_scroll_step = 60.0\n# Pixels kept between the focused text and the top or bottom edge while\n# the view follows it, so there is always context past the highlight.\n# Not applied at the very start and end of the document, where there is\n# nothing to scroll to. 0.0 lets the highlight sit flush with the edge.\nscroll_off = 80.0\n# Gap between pages, in PDF points (1/72 inch at 100% zoom).\npage_gap = 12.0\n# Zoom factor used when opening a document without a saved position...\ndefault_zoom = 1.0\n# ...unless this is true, in which case the page is fitted to the window width.\nfit_width_on_open = true\n# Multiplicative zoom step for zoom_in / zoom_out.\nzoom_step = 1.1\n# Canvas background color (#rrggbb).\nbackground = \"#1e1e1e\"\n# Highlight for focus mode. Every scope shares one colour, so the\n# highlight tells you that focus is active rather than which\n# granularity you are in.\nfocus_color = \"#5b9bd5\"\n# Opacity of the focus highlight, 0.0 to 1.0.\nfocus_opacity = 0.55\n# Highlight for the visual-mode selection (#rrggbb).\nvisual_color = \"#8a8a8a\"\n# Opacity of the selection highlight, 0.0 to 1.0.\nvisual_opacity = 0.55\n# Colour of a highlight (#rrggbb), while you place it and once it is\n# stored. This is also the colour written into the PDF by the save\n# command, so it is what other readers show too.\nhighlight_color = \"#ffe066\"\n# Opacity of the highlight overlay, 0.0 to 1.0. Applies to syodep's own\n# overlay only: a highlight saved into the PDF is painted by the reader\n# with Multiply blending, which has no opacity of its own.\nhighlight_opacity = 0.55\n# Treat each detected table as one stop from line scope up, drawn as\n# a single box (word and char scope still step through its cells).\n# Images are always single stops; this only controls table detection,\n# which costs a second text pass per page.\ndetect_tables = true\n# Treat each heading as one step at sentence and paragraph scope,\n# so it is not glued to the text below it for want of a full stop.\n# Word and line scope still move through a heading normally.\ndetect_headings = true\n# Treat each display equation as one stop from line scope up, drawn as\n# a single box, so a formula is not glued to the sentence before it, a\n# stop inside it does not split it, and an aligned system is one step\n# rather than one per row. Word and char scope still walk through one.\n# Maths written inline in a sentence is left alone.\ndetect_equations = true\n# Skip page furniture when moving: running headers, page numbers, and\n# text that does not run in the page's reading direction, such as a\n# sideways margin stamp or an inclined watermark. Headers and footers\n# are recognised by repeating across pages, never by position alone.\nskip_page_furniture = true\n\n[files]\n# Starting directory for the Open dialog (<leader>o). When unset, the\n# dialog opens in the directory syodep was launched from. If the path below\n# does not exist (or is not a directory), syodep falls back to the launch\n# directory. Run `syodep --check` to see which directory is in effect.\n# Use an absolute path (\"~\" is not expanded). Unset by default:\n# open_dir = \"/home/me/papers\"\n\n[input]\n# How long (milliseconds) a half-typed key sequence waits before it acts\n# on its own. This is what lets a key that is both a command and the\n# start of a longer one -- \"c\", \"v\", or \"o\" while selecting -- be used\n# by itself: press it, pause, and it acts. Sequences typed at normal\n# speed never reach the pause. Set to 0 to switch it off, so only the\n# next key press ever ends the wait.\ntimeout_ms = ");
    let timeout = decimal_string(input.timeout_ms);
    out.append(timeout.as_str());
    out.append("\n# The key sequence \"<leader>\" stands for in keybindings below. It is\n# expanded when the config is loaded, so \"<leader>w\" is just the leader\n# key followed by \"w\" as far as everything else is concerned.\nleader = \"");
    out.append(input.leader.as_str());
    out.append("\"\n\n# Keybindings: \"key sequence\" = \"command\". The entries below are the\n# built-in defaults; in your own config you only need to list changes,\n# which ADD TO or OVERRIDE these.\n# Key syntax (see docs/keybindings.md): plain chars (\"j\", \"G\", \"+\"),\n# sequences (\"gg\", \"zw\"), special keys in angle brackets (\"<Esc>\", \"<CR>\",\n# \"<Space>\", \"<Up>\", \"<PageDown>\", ...), modifiers inside the brackets\n# (\"<C-d>\" = ctrl+d, \"<A-x>\" = alt+x, \"<C-A-Left>\").\n# Command names are listed in docs/commands.md.\n");
    let table = default_keybindings();
    push_keytable(&mut out, "keys", &table);
    out.append("\n# Focus-mode keybindings (active after pressing \"cc\", \"cw\", \"ce\", \"cs\" or\n# \"cp\"). These overlay the normal [keys] while focus mode is active: hjkl and\n# the arrows move the highlight by one unit of the active scope, w/e/b move a\n# word at a time whatever the scope, and <Esc> exits.\n# One table covers every scope, because the commands dispatch on the scope:\n# \"focus_left\" is a character in char scope, a word in word scope, a column\n# jump in line scope and the previous unit in sentence/paragraph scope.\n");
    let table = default_focus_keybindings();
    push_keytable(&mut out, "focus_keys", &table);
    out.append("\n# Visual-mode keybindings (active after pressing \"v\"). hjkl/arrows grow the\n# selection by one unit of the active end's scope. \"v\" plus a scope letter\n# changes the moving end's scope, \"o\" switches ends and \"o\" plus a scope\n# letter does both. <Esc> exits to the mode visual mode was entered from.\n");
    let table = default_visual_keybindings();
    push_keytable(&mut out, "visual_keys", &table);
    out.append("\n# Highlight-mode keybindings (active after pressing \"a\" while focused or\n# selecting). The motions are the visual-mode ones bound to the very same\n# commands, because a pending highlight is a selection: hjkl/arrows and\n# w/e/b/s/p reshape it, \"o\" switches ends, \"o\" plus a scope letter does\n# both. \"a\" again keeps the highlight and returns to selecting; <Esc> or\n# <BS> throws it away and restores what you had. \"v\" and \"c\" are not\n# listed because they fall through to [keys], where they keep the\n# highlight on the way into the mode they name.\n");
    let table = default_highlight_keybindings();
    push_keytable(&mut out, "highlight_keys", &table);
    out
}

/// Errors produced while loading or parsing configuration.
#[derive(Debug, Clone, PartialEq, Eq)]
pub enum ConfigError {
    /// The file exists but could not be read; `message` is the system's
    /// description of the failure.
    Io { path: String, message: String },
    /// The file was read but is not a valid configuration.
    Parse { path: String, message: String },
}

/// The text of a [`ConfigError`].
pub open spec fn config_error_text(e: ConfigError) -> Seq<char> {
    match e {
        ConfigError::Io { path, message } => "cannot read config file "@ + path@ + ": "@
            + message@,
        ConfigError::Parse { path, message } => "invalid config file "@ + path@ + ": "@
            + message@,
    }
}

impl ConfigError {
    /// The message shown to the user: which file, and what went wrong.
    pub fn message(&self) -> (r: String)
        ensures
            r@ == config_error_text(*self),
    {
        match self {
            ConfigError::Io { path, message } => {
                let mut out = owned("cannot read config file ");
                out.append(path.as_str());
                out.append(": ");
                out.append(message.as_str());
                out
            },
            ConfigError::Parse { path, message } => {
                let mut out = owned("invalid config file ");
                out.append(path.as_str());
                out.append(": ");
                out.append(message.as_str());
                out
            },
        }
    }
}

/// The scopes that had a focus table of their own before the five focus
/// modes collapsed into one.
pub open spec fn removed_focus_scopes() -> Seq<Seq<char>> {
    seq!["caret_focus"@, "line_focus"@, "word_focus"@, "sentence_focus"@, "paragraph_focus"@]
}

/// The header of the table a removed focus scope had: `[word_focus_keys]`.
pub open spec fn table_header(scope: Seq<char>) -> Seq<char> {
    "["@ + scope + "_keys]"@
}

/// The scopes among `scopes` whose old table header occurs in `text`, in order.
pub open spec fn stale_scopes(text: Seq<char>, scopes: Seq<Seq<char>>) -> Seq<Seq<char>>
    decreases scopes.len(),
{
    if scopes.len() == 0 {
        Seq::empty()
    } else {
        let rest = stale_scopes(text, scopes.drop_last());
        if text_contains(text, table_header(scopes.last())) {
            rest.push(scopes.last())
        } else {
            rest
        }
    }
}

/// The table headers of `scopes`, separated by `, `.
pub open spec fn joined_headers(scopes: Seq<Seq<char>>) -> Seq<char>
    decreases scopes.len(),
{
    if scopes.len() == 0 {
        Seq::empty()
    } else if scopes.len() == 1 {
        table_header(scopes[0])
    } else {
        joined_headers(scopes.drop_last()) + ", "@ + table_header(scopes.last())
    }
}

/// The message of a failed parse of `text`: the parser's own `message`, and,
/// when `text` still names one of the removed focus tables, a hint saying how
/// to migrate it.
pub open spec fn hinted_message(text: Seq<char>, message: Seq<char>) -> Seq<char> {
    let stale = stale_scopes(text, removed_focus_scopes());
    if stale.len() == 0 {
        message
    } else {
        message + "\nhint: the five focus modes are now one mode with a scope, so "@
            + joined_headers(stale)
            + " became a single [focus_keys] table. Rename it and replace the per-scope command names ("@
            + stale[0]
            + "_left, ...) with focus_left / focus_right / focus_up / focus_down. See docs/config.md."@
    }
}

/// A string holding the old table header of `scope`.
fn scope_header(scope: &str) -> (r: String)
    ensures
        r@ == table_header(scope@),
{
    let mut out = owned("[");
    out.append(scope);
    out.append("_keys]");
    out
}

/// Append a migration hint when a parse failure looks like a config written
/// for the old per-scope focus tables.
///
/// Unknown tables reject the *whole* file, so a config still naming
/// `[word_focus_keys]` loses `[view]`, `[files]` and everything else — and the
/// bare parser message does not say what to do about it. This makes it
/// legible.
pub fn migration_hint(text: &str, message: String) -> (r: String)
    ensures
        r@ == hinted_message(text@, message@),
{
    let hay = str_chars(text);
    let scopes: Vec<&str> = vec![
        "caret_focus",
        "line_focus",
        "word_focus",
        "sentence_focus",
        "paragraph_focus",
    ];
    let ghost all = removed_focus_scopes();
    assert(scopes@.map_values(|s: &str| s@) =~= all);
    let mut stale: Vec<&str> = Vec::new();
    let mut k: usize = 0;
    while k < scopes.len()
        invariant
            k <= scopes@.len(),
            scopes@.len() == 5,
            hay@ == text@,
            scopes@.map_values(|s: &str| s@) == all,
            stale@.map_values(|s: &str| s@) == stale_scopes(text@, all.take(k as int)),
        decreases scopes@.len() - k,
    {
        let header = scope_header(scopes[k]);
        let needle = str_chars(header.as_str());
        proof {
            assert(all.take(k + 1).drop_last() =~= all.take(k as int));
            assert(all[k as int] == scopes@[k as int]@);
        }
        if contains_chars(&hay, &needle) {
            stale.push(scopes[k]);
            assert(stale@.map_values(|s: &str| s@) =~= stale_scopes(text@, all.take(k as int)).push(
                all[k as int],
            ));
        }
        k = k + 1;
    }
    assert(all.take(5) =~= all);
    let ghost found = stale_scopes(text@, all);
    if stale.len() == 0 {
        return message;
    }
    let mut out = message;
    out.append("\nhint: the five focus modes are now one mode with a scope, so ");
    let ghost base = out@;
    let mut j: usize = 0;
    while j < stale.len()
        invariant
            j <= stale@.len(),
            stale@.len() >= 1,
            stale@.map_values(|s: &str| s@) == found,
            out@ == base + joined_headers(found.take(j as int)),
        decreases stale@.len() - j,
    {
        let ghost before = out@;
        if j > 0 {
            out.append(", ");
        }
        let header = scope_header(stale[j]);
        out.append(header.as_str());
        proof {
            assert(found.take(j + 1).drop_last() =~= found.take(j as int));
            assert(found[j as int] == stale@[j as int]@);
            if j == 0 {
                assert(found.take(1).len() == 1);
                assert(found.take(0) =~= Seq::<Seq<char>>::empty());
            }
            assert(out@ =~= base + joined_headers(found.take(j + 1)));
        }
        j = j + 1;
    }
    assert(found.take(stale@.len() as int) =~= found);
    out.append(
        " became a single [focus_keys] table. Rename it and replace the per-scope command names (",
    );
    out.append(stale[0]);
    assert(found[0] == stale@[0]@);
    out.append("_left, ...) with focus_left / focus_right / focus_up / focus_down. See docs/config.md.");
    out
}

/// The bindings a key table defines: each key sequence mapped to its
/// command, a later entry for the same key replacing an earlier one.
pub open spec fn bindings_of(t: Seq<(Seq<char>, Seq<char>)>) -> Map<Seq<char>, Seq<char>>
    decreases t.len(),
{
    if t.len() == 0 {
        Map::empty()
    } else {
        bindings_of(t.drop_last()).insert(t.last().0, t.last().1)
    }
}

/// No key sequence has two entries in `t`.
pub open spec fn keys_distinct(t: Seq<(Seq<char>, Seq<char>)>) -> bool {
    forall|i: int, j: int| 0 <= i < j < t.len() ==> #[trigger] t[i].0 != #[trigger] t[j].0
}

/// Replacing, in a table without repeated keys, the command of an entry
/// rebinds that entry's key and nothing else.
proof fn lemma_rebind(t: Seq<(Seq<char>, Seq<char>)>, j: int, command: Seq<char>)
    requires
        keys_distinct(t),
        0 <= j < t.len(),
    ensures
        bindings_of(t.update(j, (t[j].0, command))) == bindings_of(t).insert(t[j].0, command),
    decreases t.len(),
{
    let u = t.update(j, (t[j].0, command));
    if j == t.len() - 1 {
        assert(u.drop_last() =~= t.drop_last());
        assert(bindings_of(u) =~= bindings_of(t).insert(t[j].0, command));
    } else {
        let d = t.drop_last();
        assert(keys_distinct(d));
        assert(u.drop_last() =~= d.update(j, (d[j].0, command)));
        lemma_rebind(d, j, command);
        assert(t.last().0 != t[j].0);
        assert(bindings_of(u) =~= bindings_of(t).insert(t[j].0, command));
    }
}

/// Bind `key` to `command` in `table`, replacing the key's entry if it has
/// one and adding an entry at the end otherwise.
fn insert_binding(table: &mut Vec<(String, String)>, key: String, command: String)
    requires
        keys_distinct(pairs_view(old(table)@)),
    ensures
        keys_distinct(pairs_view(final(table)@)),
        bindings_of(pairs_view(final(table)@)) == bindings_of(pairs_view(old(table)@)).insert(
            key@,
            command@,
        ),
{
    let ghost t = pairs_view(table@);
    let mut j: usize = 0;
    while j < table.len()
        invariant
            j <= table@.len(),
            t == pairs_view(table@),
            table@ == old(table)@,
            keys_distinct(t),
            forall|i: int| 0 <= i < j ==> #[trigger] t[i].0 != key@,
        decreases table@.len() - j,
    {
        if str_eq(table[j].0.as_str(), key.as_str()) {
            proof {
                assert(t[j as int].0 == key@);
                lemma_rebind(t, j as int, command@);
            }
            table[j] = (key, command);
            let ghost after = pairs_view(table@);
            assert(after =~= t.update(j as int, (t[j as int].0, command@)));
            assert forall|a: int, b: int| 0 <= a < b < after.len() implies #[trigger] after[a].0
                != #[trigger] after[b].0 by {
                assert(after[a].0 == t[a].0 && after[b].0 == t[b].0);
            }
            return;
        }
        j = j + 1;
    }
    table.push((key, command));
    assert(pairs_view(table@) =~= t.push((key@, command@)));
    assert(pairs_view(table@).drop_last() =~= t);
}

/// A user's key table laid over the built-in one: every default binding
/// survives unless the user rebinds its key, and the user's other bindings
/// are added. An empty or missing user table therefore means "use the
/// defaults".
pub fn merge_bindings(defaults: &[(String, String)], user: &[(String, String)]) -> (r: Vec<
    (String, String),
>)
    ensures
        keys_distinct(pairs_view(r@)),
        bindings_of(pairs_view(r@)) == bindings_of(pairs_view(defaults@)).union_prefer_right(
            bindings_of(pairs_view(user@)),
        ),
{
    let ghost d = pairs_view(defaults@);
    let ghost u = pairs_view(user@);
    let mut r: Vec<(String, String)> = Vec::new();
    assert(pairs_view(r@) =~= Seq::<(Seq<char>, Seq<char>)>::empty());
    let mut i: usize = 0;
    while i < defaults.len()
        invariant
            i <= defaults@.len(),
            d == pairs_view(defaults@),
            keys_distinct(pairs_view(r@)),
            bindings_of(pairs_view(r@)) == bindings_of(d.take(i as int)),
        decreases defaults@.len() - i,
    {
        let key = defaults[i].0.clone();
        let command = defaults[i].1.clone();
        insert_binding(&mut r, key, command);
        assert(d.take(i + 1).drop_last() =~= d.take(i as int));
        i = i + 1;
    }
    assert(d.take(defaults@.len() as int) =~= d);
    assert(bindings_of(d).union_prefer_right(bindings_of(u.take(0))) =~= bindings_of(d));
    let mut k: usize = 0;
    while k < user.len()
        invariant
            k <= user@.len(),
            u == pairs_view(user@),
            keys_distinct(pairs_view(r@)),
            bindings_of(pairs_view(r@)) == bindings_of(d).union_prefer_right(
                bindings_of(u.take(k as int)),
            ),
        decreases user@.len() - k,
    {
        let key = user[k].0.clone();
        let command = user[k].1.clone();
        insert_binding(&mut r, key, command);
        proof {
            assert(u.take(k + 1).drop_last() =~= u.take(k as int));
            assert(bindings_of(pairs_view(r@)) =~= bindings_of(d).union_prefer_right(
                bindings_of(u.take(k + 1)),
            ));
        }
        k = k + 1;
    }
    assert(u.take(user@.len() as int) =~= u);
    r
}

} // verus!
