use syodep::command::Command;
use syodep::input::{InputState, KeyOutcome, Keymap};
use syodep::keys::{Chord, Key, NamedKey};

fn test_keymap() -> Keymap {
    let (keymap, errors) = Keymap::from_entries(
        &[
            ("j", "scroll_down"),
            ("k", "scroll_up"),
            ("gg", "goto_first_page"),
            ("G", "goto_last_page"),
            ("<C-d>", "scroll_half_page_down"),
            ("zw", "fit_width"),
            ("z0", "zoom_reset"),
            ("<Esc>", "cancel"),
            // `o` is both a complete binding and a prefix of `ow` -- the case
            // the longest-prefix fallback exists for.
            ("o", "open_file"),
            ("ow", "fit_width"),
        ],
        &[],
    );
    assert!(errors.is_empty(), "{errors:?}");
    keymap
}

fn chord(c: char) -> Chord {
    Chord::char(c)
}

#[test]
fn single_key_resolves() {
    let keymap = test_keymap();
    let mut input = InputState::new();
    assert_eq!(
        input.handle(&keymap, chord('j')),
        KeyOutcome::Command {
            command: Command::ScrollDown,
            count: None
        }
    );
    assert!(!input.has_pending());
}

#[test]
fn count_prefix_applies() {
    let keymap = test_keymap();
    let mut input = InputState::new();
    assert_eq!(input.handle(&keymap, chord('5')), KeyOutcome::Pending);
    assert_eq!(
        input.handle(&keymap, chord('j')),
        KeyOutcome::Command {
            command: Command::ScrollDown,
            count: Some(5)
        }
    );
}

#[test]
fn multi_digit_count() {
    let keymap = test_keymap();
    let mut input = InputState::new();
    input.handle(&keymap, chord('1'));
    input.handle(&keymap, chord('2'));
    input.handle(&keymap, chord('0'));
    assert_eq!(
        input.handle(&keymap, chord('G')),
        KeyOutcome::Command {
            command: Command::GotoLastPage,
            count: Some(120)
        }
    );
}

#[test]
fn multi_key_sequence_resolves() {
    let keymap = test_keymap();
    let mut input = InputState::new();
    assert_eq!(input.handle(&keymap, chord('g')), KeyOutcome::Pending);
    assert!(input.has_pending());
    assert_eq!(
        input.handle(&keymap, chord('g')),
        KeyOutcome::Command {
            command: Command::GotoFirstPage,
            count: None
        }
    );
}

#[test]
fn sequences_sharing_prefix_disambiguate() {
    let keymap = test_keymap();
    let mut input = InputState::new();
    input.handle(&keymap, chord('z'));
    assert_eq!(
        input.handle(&keymap, chord('0')),
        KeyOutcome::Command {
            command: Command::ZoomReset,
            count: None
        }
    );
    input.handle(&keymap, chord('z'));
    assert_eq!(
        input.handle(&keymap, chord('w')),
        KeyOutcome::Command {
            command: Command::FitWidth,
            count: None
        }
    );
}

#[test]
fn unmatched_sequence_resets() {
    let keymap = test_keymap();
    let mut input = InputState::new();
    input.handle(&keymap, chord('g'));
    assert_eq!(input.handle(&keymap, chord('x')), KeyOutcome::Unmatched);
    assert!(!input.has_pending());
    // State machine still works afterwards.
    assert_eq!(
        input.handle(&keymap, chord('j')),
        KeyOutcome::Command {
            command: Command::ScrollDown,
            count: None
        }
    );
}

#[test]
fn escape_clears_pending_input() {
    let keymap = test_keymap();
    let mut input = InputState::new();
    input.handle(&keymap, chord('4'));
    input.handle(&keymap, chord('g'));
    assert!(input.has_pending());
    assert_eq!(
        input.handle(&keymap, Chord::named(NamedKey::Escape)),
        KeyOutcome::Pending
    );
    assert!(!input.has_pending());
    // A bare Escape resolves to cancel.
    assert_eq!(
        input.handle(&keymap, Chord::named(NamedKey::Escape)),
        KeyOutcome::Command {
            command: Command::Cancel,
            count: None
        }
    );
}

#[test]
fn ctrl_chord_resolves() {
    let keymap = test_keymap();
    let mut input = InputState::new();
    let ctrl_d = Chord {
        key: Key::Char('d'),
        ctrl: true,
        alt: false,
    };
    assert_eq!(
        input.handle(&keymap, ctrl_d),
        KeyOutcome::Command {
            command: Command::ScrollHalfPageDown,
            count: None
        }
    );
}

#[test]
fn leading_zero_is_not_a_count() {
    let keymap = test_keymap();
    let mut input = InputState::new();
    // '0' is unbound in the test keymap and no count is pending, so it
    // falls through to sequence matching and misses.
    assert_eq!(input.handle(&keymap, chord('0')), KeyOutcome::Unmatched);
}

#[test]
fn pending_display_shows_count_and_sequence() {
    let keymap = test_keymap();
    let mut input = InputState::new();
    input.handle(&keymap, chord('1'));
    input.handle(&keymap, chord('2'));
    input.handle(&keymap, chord('g'));
    assert_eq!(input.pending_display(), "12g");
}

/// Feed a whole sequence, draining replays, and collect what resolved.
fn run(keymap: &Keymap, input: &mut InputState, chords: &[Chord]) -> Vec<KeyOutcome> {
    let mut out = Vec::new();
    for chord in chords {
        let mut next = Some(*chord);
        while let Some(chord) = next.take() {
            out.push(input.handle(keymap, chord));
            next = input.next_replay();
        }
    }
    out
}

fn command(command: Command, count: Option<u32>) -> KeyOutcome {
    KeyOutcome::Command { command, count }
}

#[test]
fn prefix_command_fires_when_next_key_misses() {
    let keymap = test_keymap();
    let mut input = InputState::new();
    // `o` waits (it is also a prefix of `ow`), then `oj` misses -- so `o`
    // fires and `j` is replayed.
    assert_eq!(input.handle(&keymap, chord('o')), KeyOutcome::Pending);
    assert_eq!(
        input.handle(&keymap, chord('j')),
        command(Command::OpenFile, None)
    );
    assert_eq!(input.next_replay(), Some(chord('j')));
    assert_eq!(
        input.handle(&keymap, chord('j')),
        command(Command::ScrollDown, None)
    );
    assert_eq!(input.next_replay(), None);
    assert!(!input.has_pending());
}

#[test]
fn prefix_binding_still_resolves_directly() {
    let keymap = test_keymap();
    let mut input = InputState::new();
    assert_eq!(
        run(&keymap, &mut input, &[chord('o'), chord('w')]),
        vec![KeyOutcome::Pending, command(Command::FitWidth, None)]
    );
    assert_eq!(input.next_replay(), None);
}

#[test]
fn fallback_gives_the_count_to_the_prefix_command() {
    let keymap = test_keymap();
    let mut input = InputState::new();
    // `5oj`: the count is consumed by the command that resolved, and the
    // replayed `j` runs countless.
    let outcomes = run(&keymap, &mut input, &[chord('5'), chord('o'), chord('j')]);
    assert_eq!(
        outcomes,
        vec![
            KeyOutcome::Pending,
            KeyOutcome::Pending,
            command(Command::OpenFile, Some(5)),
            command(Command::ScrollDown, None),
        ]
    );
}

#[test]
fn digit_after_a_prefix_becomes_a_count_via_replay() {
    let keymap = test_keymap();
    let mut input = InputState::new();
    // `o5j`: `o5` misses, so `o` fires and `5` replays into an empty
    // pending buffer -- where it re-enters the count branch and applies
    // to the `j` that follows.
    let outcomes = run(&keymap, &mut input, &[chord('o'), chord('5'), chord('j')]);
    assert_eq!(
        outcomes,
        vec![
            KeyOutcome::Pending,
            command(Command::OpenFile, None),
            KeyOutcome::Pending,
            command(Command::ScrollDown, Some(5)),
        ]
    );
}

#[test]
fn escape_clears_the_replay_queue() {
    let keymap = test_keymap();
    let mut input = InputState::new();
    input.handle(&keymap, chord('o'));
    input.handle(&keymap, chord('j'));
    assert!(input.next_replay().is_some() || !input.has_pending());
    input.clear();
    assert_eq!(input.next_replay(), None);
    assert!(!input.has_pending());
}

#[test]
fn escape_cancels_a_pending_prefix_instead_of_firing_it() {
    let keymap = test_keymap();
    let mut input = InputState::new();
    // Escape is intercepted while input is pending, before lookup -- so
    // `o<Esc>` cancels the half-typed `o` rather than running it.
    input.handle(&keymap, chord('o'));
    assert_eq!(
        input.handle(&keymap, Chord::named(NamedKey::Escape)),
        KeyOutcome::Pending
    );
    assert_eq!(input.next_replay(), None);
    assert!(!input.has_pending());
}

#[test]
fn total_miss_without_a_prefix_command_still_resets() {
    let keymap = test_keymap();
    let mut input = InputState::new();
    // `g` is a prefix with no command of its own, so there is nothing to
    // fall back to and the old reset behavior stands.
    input.handle(&keymap, chord('g'));
    assert_eq!(input.handle(&keymap, chord('x')), KeyOutcome::Unmatched);
    assert_eq!(input.next_replay(), None);
    assert!(!input.has_pending());
}

#[test]
fn keymap_reports_all_errors_but_keeps_valid_entries() {
    let (keymap, errors) = Keymap::from_entries(
        &[
            ("j", "scroll_down"),
            ("<Oops>", "scroll_up"),
            ("k", "not_a_command"),
        ],
        &[],
    );
    assert_eq!(errors.len(), 2);
    let messages: Vec<String> = errors.iter().map(|e| e.message()).collect();
    assert!(messages.iter().any(|m| m.contains("Oops")), "{messages:?}");
    assert!(
        messages.iter().any(|m| m.contains("not_a_command")),
        "{messages:?}"
    );
    let mut input = InputState::new();
    assert_eq!(
        input.handle(&keymap, chord('j')),
        KeyOutcome::Command {
            command: Command::ScrollDown,
            count: None
        }
    );
}

#[test]
fn a_leader_binding_becomes_an_ordinary_sequence() {
    let leader = vec![Chord::named(NamedKey::Space)];
    let (mut keymap, errors) = Keymap::from_entries(
        &[("<leader>w", "save_document"), ("w", "fit_width")],
        &leader,
    );
    assert!(errors.is_empty(), "{errors:?}");
    // The overlay inherits the leader from the keymap it extends, so a mode
    // table can use `<leader>` too.
    assert!(keymap.overlay(&[("<leader>q", "quit")]).is_empty());

    let mut input = InputState::new();
    // `<Space>` is a prefix only, so it waits; `w` then completes the leader
    // binding rather than firing the bare `w` one.
    assert_eq!(
        input.handle(&keymap, Chord::named(NamedKey::Space)),
        KeyOutcome::Pending
    );
    assert_eq!(
        input.handle(&keymap, chord('w')),
        KeyOutcome::Command {
            command: Command::SaveDocument,
            count: None,
        }
    );
    // And bare `w` is untouched.
    assert_eq!(
        input.handle(&keymap, chord('w')),
        KeyOutcome::Command {
            command: Command::FitWidth,
            count: None,
        }
    );
}

// ---- the pause -----------------------------------------------------
//
// The core never reads a clock: "waiting" in a test is a `timeout` call.

#[test]
fn timeout_fires_a_sequence_that_is_also_a_prefix() {
    let keymap = test_keymap();
    let mut input = InputState::new();
    // `o` is bound *and* the start of `ow`, so a key press alone leaves it
    // waiting -- this is exactly the case the pause exists for.
    assert_eq!(input.handle(&keymap, chord('o')), KeyOutcome::Pending);
    assert!(input.has_pending_sequence());
    assert_eq!(
        input.timeout(&keymap),
        KeyOutcome::Command {
            command: Command::OpenFile,
            count: None,
        }
    );
    assert!(!input.has_pending_sequence());
}

#[test]
fn timeout_keeps_the_count() {
    let keymap = test_keymap();
    let mut input = InputState::new();
    for c in ['3', 'o'] {
        input.handle(&keymap, chord(c));
    }
    assert_eq!(
        input.timeout(&keymap),
        KeyOutcome::Command {
            command: Command::OpenFile,
            count: Some(3),
        }
    );
}

#[test]
fn timeout_leaves_a_bare_count_alone() {
    let keymap = test_keymap();
    let mut input = InputState::new();
    input.handle(&keymap, chord('1'));
    input.handle(&keymap, chord('2'));
    // No sequence to resolve, so the pause must not eat the count:
    // `12`, a pause, then `G` still means "page 12".
    assert_eq!(input.timeout(&keymap), KeyOutcome::Pending);
    assert!(input.has_pending());
    assert_eq!(
        input.handle(&keymap, chord('G')),
        KeyOutcome::Command {
            command: Command::GotoLastPage,
            count: Some(12),
        }
    );
}

#[test]
fn timeout_drops_a_partial_sequence_bound_to_nothing() {
    let keymap = test_keymap();
    let mut input = InputState::new();
    // `g` is only ever the start of `gg`; there is nothing to fire.
    assert_eq!(input.handle(&keymap, chord('g')), KeyOutcome::Pending);
    assert_eq!(input.timeout(&keymap), KeyOutcome::Unmatched);
    assert!(!input.has_pending(), "the half-typed g must clear itself");
}

#[test]
fn timeout_on_nothing_pending_is_inert() {
    let keymap = test_keymap();
    let mut input = InputState::new();
    assert_eq!(input.timeout(&keymap), KeyOutcome::Pending);
    assert!(!input.has_pending());
}

#[test]
fn timeout_replays_chords_after_the_fired_prefix() {
    let keymap = test_keymap();
    let mut input = InputState::new();
    // `oz` misses, so `o` fires and `z` is queued -- then a pause on the
    // replayed `z` (itself only a prefix) drops it.
    input.handle(&keymap, chord('o'));
    assert_eq!(
        input.handle(&keymap, chord('z')),
        KeyOutcome::Command {
            command: Command::OpenFile,
            count: None,
        }
    );
    assert_eq!(input.next_replay(), Some(chord('z')));
}

#[test]
fn displayed_sequences_parse_back_through_the_leader() {
    let leader = [Chord::named(NamedKey::Space)];
    let keymap = Keymap::new(&leader);
    let with_leader = [Chord::named(NamedKey::Space), Chord::char('w')];
    let shown = keymap.display_sequence(&with_leader);
    assert_eq!(shown, "<leader>w");
    assert_eq!(syodep::keys::parse_sequence_with_leader(&shown, &leader).unwrap(), with_leader.to_vec());
    let only_leader = keymap.display_sequence(&leader);
    assert_eq!(only_leader, "<leader>");
    assert_eq!(syodep::keys::parse_sequence_with_leader(&only_leader, &leader).unwrap(), leader.to_vec());
    let plain = [Chord::char('g'), Chord { key: Key::Char('d'), ctrl: true, alt: false }];
    let shown = keymap.display_sequence(&plain);
    assert_eq!(shown, "g<C-d>");
    assert_eq!(syodep::keys::parse_sequence_with_leader(&shown, &leader).unwrap(), plain.to_vec());
}
