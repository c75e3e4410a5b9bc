use syodep::keys::{parse_sequence, parse_sequence_with_leader, Chord, Key, NamedKey};

#[test]
fn parses_single_char() {
    assert_eq!(parse_sequence("j").unwrap(), vec![Chord::char('j')]);
    assert_eq!(parse_sequence("G").unwrap(), vec![Chord::char('G')]);
    assert_eq!(parse_sequence("+").unwrap(), vec![Chord::char('+')]);
}

#[test]
fn parses_multi_char_sequence() {
    assert_eq!(
        parse_sequence("gg").unwrap(),
        vec![Chord::char('g'), Chord::char('g')]
    );
    assert_eq!(
        parse_sequence("zw").unwrap(),
        vec![Chord::char('z'), Chord::char('w')]
    );
}

#[test]
fn parses_ctrl_chord() {
    assert_eq!(
        parse_sequence("<C-d>").unwrap(),
        vec![Chord {
            key: Key::Char('d'),
            ctrl: true,
            alt: false
        }]
    );
}

#[test]
fn parses_combined_modifiers_and_named_keys() {
    assert_eq!(
        parse_sequence("<C-A-Left>").unwrap(),
        vec![Chord {
            key: Key::Named(NamedKey::Left),
            ctrl: true,
            alt: true
        }]
    );
    assert_eq!(
        parse_sequence("<Esc>").unwrap(),
        vec![Chord::named(NamedKey::Escape)]
    );
}

#[test]
fn parses_mixed_sequence() {
    assert_eq!(
        parse_sequence("g<C-d>").unwrap(),
        vec![
            Chord::char('g'),
            Chord {
                key: Key::Char('d'),
                ctrl: true,
                alt: false
            }
        ]
    );
}

#[test]
fn rejects_garbage_with_context() {
    let err = parse_sequence("<C-").unwrap_err();
    assert!(err.message.contains("unclosed"), "{err:?}");

    let err = parse_sequence("<Banana>").unwrap_err();
    assert!(err.message.contains("Banana"), "{err:?}");

    let err = parse_sequence("").unwrap_err();
    assert!(err.message.contains("empty"), "{err:?}");

    let err = parse_sequence("g g").unwrap_err();
    assert!(err.message.contains("whitespace"), "{err:?}");
}

#[test]
fn leader_expands_to_its_chords() {
    let leader = parse_sequence("<Space>").unwrap();
    assert_eq!(
        parse_sequence_with_leader("<leader>w", &leader).unwrap(),
        vec![Chord::named(NamedKey::Space), Chord::char('w')]
    );
    // Capitalisation of the token does not matter, and a multi-chord leader
    // splices in whole.
    let long = parse_sequence("g<C-d>").unwrap();
    assert_eq!(
        parse_sequence_with_leader("<Leader>x", &long).unwrap(),
        vec![
            Chord::char('g'),
            Chord {
                key: Key::Char('d'),
                ctrl: true,
                alt: false
            },
            Chord::char('x'),
        ]
    );
}

#[test]
fn leader_is_rejected_where_there_is_none_to_expand() {
    // Which is what keeps `leader = "<leader>"` from recursing: the leader
    // string itself goes through `parse_sequence`.
    let err = parse_sequence("<leader>w").unwrap_err();
    assert!(err.message.contains("[input] leader"), "{err:?}");
}

#[test]
fn display_round_trips() {
    for s in [
        "j",
        "G",
        "gg",
        "<C-d>",
        "<Esc>",
        "<C-A-Left>",
        "g<C-d>",
        "<<>",
    ] {
        let chords = parse_sequence(s).unwrap();
        let rendered: String = chords.iter().map(|c| c.to_key_string()).collect();
        assert_eq!(parse_sequence(&rendered).unwrap(), chords, "for {s}");
    }
}

/// Regression: the shell encodes a pressed `<` as `<<>`, because a bare
/// `<` opens a bracket group and is rejected as unclosed — the key would
/// otherwise be silently swallowed and unbindable.
#[test]
fn literal_less_than_is_written_bracketed() {
    assert_eq!(parse_sequence("<<>").unwrap(), vec![Chord::char('<')]);
    assert_eq!(
        parse_sequence("<C-<>").unwrap(),
        vec![Chord {
            key: Key::Char('<'),
            ctrl: true,
            alt: false
        }]
    );
    assert_eq!(Chord::char('<').to_key_string(), "<<>");
    // A bare `<` stays an error rather than becoming a fourth spelling.
    let err = parse_sequence("<").unwrap_err();
    assert!(err.message.contains("unclosed"), "{err:?}");
}

#[test]
fn key_parse_errors_describe_the_rejected_sequence() {
    let err = parse_sequence("<C-").unwrap_err();
    assert_eq!(err.describe(), format!("invalid key sequence \"<C-\": {}", err.message));
}

#[test]
fn named_keys_render_canonically() {
    assert_eq!(Chord::named(NamedKey::PageDown).to_key_string(), "<PageDown>");
    assert_eq!(parse_sequence("<pagedown>").unwrap(), vec![Chord::named(NamedKey::PageDown)]);
    assert_eq!(parse_sequence("<cr>").unwrap(), vec![Chord::named(NamedKey::Enter)]);
    assert_eq!(
        parse_sequence("<A-x>").unwrap(),
        vec![Chord { key: Key::Char('x'), ctrl: false, alt: true }]
    );
}

#[test]
fn leader_changes_only_leader_groups() {
    let leader = [Chord::named(NamedKey::Space)];
    for text in ["gg", "<C-d>", "<PageDown>", "z0"] {
        assert_eq!(parse_sequence_with_leader(text, &leader), parse_sequence(text));
    }
    assert_eq!(
        parse_sequence_with_leader("<LeAdEr>gg", &leader).unwrap(),
        vec![Chord::named(NamedKey::Space), Chord::char('g'), Chord::char('g')]
    );
}

#[test]
fn key_names_read_in_any_case() {
    for text in ["<Esc>", "<ESC>", "<esc>", "<eSc>"] {
        assert_eq!(parse_sequence(text).unwrap(), vec![Chord::named(NamedKey::Escape)]);
    }
    assert_eq!(parse_sequence("<PAGEDOWN>").unwrap(), vec![Chord::named(NamedKey::PageDown)]);
    assert_eq!(parse_sequence("<bs>").unwrap(), vec![Chord::named(NamedKey::Backspace)]);
}
