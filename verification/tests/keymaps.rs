use syodep::caret::Mode;
use syodep::command::Command;
use syodep::keymaps::build_keymaps;
use syodep::keys::{Chord, NamedKey};

fn bound(keymap: &syodep::input::Keymap, chords: &[Chord]) -> Option<Command> {
    keymap
        .bindings()
        .into_iter()
        .find(|(seq, _)| seq.as_slice() == chords)
        .map(|(_, c)| c)
}

#[test]
fn invalid_keybindings_become_startup_warnings() {
    let maps = build_keymaps(
        "<Space>",
        &[("<Bogus>", "scroll_down"), ("x", "no_such_command"), ("j", "scroll_down")],
        &[],
        &[],
        &[],
    );
    assert_eq!(maps.warnings.len(), 2);
    assert!(maps.warnings[0].starts_with("invalid key sequence \"<Bogus>\": unknown key name"));
    assert_eq!(
        maps.warnings[1],
        "binding \"x\": unknown command \"no_such_command\" (see docs/commands.md for the command list)"
    );
    assert_eq!(bound(&maps.normal, &[Chord::char('j')]), Some(Command::ScrollDown));
}

#[test]
fn an_invalid_leader_warns_and_falls_back_to_space() {
    let maps = build_keymaps("<Nope>", &[("<leader>q", "quit")], &[], &[], &[]);
    assert_eq!(maps.warnings.len(), 1);
    assert!(maps.warnings[0].starts_with("invalid [input] leader: invalid key sequence \"<Nope>\": "));
    assert!(maps.warnings[0].ends_with("; using the default \"<Space>\""));
    assert_eq!(
        bound(&maps.normal, &[Chord::named(NamedKey::Space), Chord::char('q')]),
        Some(Command::Quit)
    );
}

#[test]
fn a_configured_leader_is_used_by_every_table() {
    let maps = build_keymaps(",", &[("<leader>q", "quit")], &[("<leader>w", "save_document")], &[], &[]);
    assert!(maps.warnings.is_empty(), "{:?}", maps.warnings);
    assert_eq!(bound(&maps.normal, &[Chord::char(','), Chord::char('q')]), Some(Command::Quit));
    assert_eq!(
        bound(&maps.focus, &[Chord::char(','), Chord::char('w')]),
        Some(Command::SaveDocument)
    );
}

#[test]
fn mode_tables_lay_their_bindings_over_the_normal_one() {
    let maps = build_keymaps(
        "<Space>",
        &[("j", "scroll_down"), ("q", "quit")],
        &[("j", "focus_down")],
        &[("j", "visual_down"), ("zz", "nope")],
        &[("<Esc>", "highlight_discard")],
    );
    assert_eq!(bound(&maps.normal, &[Chord::char('j')]), Some(Command::ScrollDown));
    assert_eq!(bound(&maps.focus, &[Chord::char('j')]), Some(Command::FocusDown));
    assert_eq!(bound(&maps.visual, &[Chord::char('j')]), Some(Command::VisualDown));
    assert_eq!(bound(&maps.highlight, &[Chord::char('j')]), Some(Command::ScrollDown));
    for table in [&maps.focus, &maps.visual, &maps.highlight] {
        assert_eq!(bound(table, &[Chord::char('q')]), Some(Command::Quit));
    }
    assert_eq!(
        bound(&maps.highlight, &[Chord::named(NamedKey::Escape)]),
        Some(Command::HighlightDiscard)
    );
    assert_eq!(maps.warnings.len(), 1);
    assert!(maps.warnings[0].contains("\"nope\""));
}

#[test]
fn each_mode_resolves_keys_in_its_own_table() {
    let maps = build_keymaps("<Space>", &[("j", "scroll_down")], &[("j", "focus_down")], &[("j", "visual_down")], &[]);
    let j = [Chord::char('j')];
    assert_eq!(bound(maps.for_mode(Mode::Normal), &j), Some(Command::ScrollDown));
    assert_eq!(bound(maps.for_mode(Mode::Focus), &j), Some(Command::FocusDown));
    assert_eq!(bound(maps.for_mode(Mode::Visual), &j), Some(Command::VisualDown));
    assert_eq!(bound(maps.for_mode(Mode::Highlight), &j), Some(Command::ScrollDown));
}

fn as_pairs(t: &[(String, String)]) -> Vec<(&str, &str)> {
    t.iter().map(|(a, b)| (a.as_str(), b.as_str())).collect()
}

#[test]
fn default_tables_build_without_warnings() {
    let keys = syodep::config::default_keybindings();
    let focus = syodep::config::default_focus_keybindings();
    let visual = syodep::config::default_visual_keybindings();
    let highlight = syodep::config::default_highlight_keybindings();
    let maps = build_keymaps(
        "<Space>",
        &as_pairs(&keys),
        &as_pairs(&focus),
        &as_pairs(&visual),
        &as_pairs(&highlight),
    );
    assert!(maps.warnings.is_empty(), "{:?}", maps.warnings);
    assert_eq!(
        bound(&maps.normal, &[Chord::named(NamedKey::Space), Chord::char('q')]),
        Some(Command::Quit)
    );
    assert_eq!(bound(&maps.highlight, &[Chord::named(NamedKey::Backspace)]), Some(Command::HighlightDiscard));
    assert_eq!(bound(&maps.focus, &[Chord::char('j')]), Some(Command::FocusDown));
    assert_eq!(maps.normal.bindings().len(), 39);
}
