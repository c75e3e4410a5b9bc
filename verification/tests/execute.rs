//! What single commands do through `execute`, and how `dispatch` runs an
//! outcome and the chords a fallback queued.

use syodep::caret::{Caret, Cell, CellKind, Dir, Mode, Scope};
use syodep::command::Command;
use syodep::effects::Effects;
use syodep::execute::{dispatch, dispatch_pass, execute, CommandResult, ShellAction, MAX_PASSES};
use syodep::input::{InputState, KeyOutcome};
use syodep::keymaps::{build_keymaps, ModeKeymaps};
use syodep::keys::Chord;
use syodep::selection::SelectionState;
use syodep::words::DocumentText;

const YELLOW: &str = "#ffee00";

fn cells(text: &str) -> Vec<Cell> {
    text.chars()
        .map(|ch| Cell { kind: CellKind::Char(ch), synthetic: false })
        .collect()
}

/// One page of two lines that form one paragraph.
fn document() -> DocumentText {
    DocumentText {
        pages: vec![vec![cells("Alpha beta gamma."), cells("Delta epsilon.")]],
        objects: vec![Vec::new()],
        paragraphs: vec![vec![(0, 1)]],
    }
}

fn normal_state() -> SelectionState {
    SelectionState { mode: Mode::Normal, focus: None, focus_scope: Scope::Char, visual: None, pending: None }
}

fn top() -> Option<Caret> {
    Some(Caret { page: 0, line: 0, cell: 0 })
}

/// Run `command` on a document of ten pages, no highlights stored.
fn run(state: &mut SelectionState, command: Command, count: Option<u32>) -> CommandResult {
    execute(state, &document(), command, count, Some(10), top(), YELLOW, true)
}

fn action(command: Command, count: Option<u32>) -> ShellAction {
    run(&mut normal_state(), command, count).action
}

#[test]
fn counted_goto_jumps_to_a_page_number_from_one() {
    assert_eq!(action(Command::GotoLastPage, Some(3)), ShellAction::GotoPage(2));
    assert_eq!(action(Command::GotoFirstPage, Some(3)), ShellAction::GotoPage(2));
    assert_eq!(action(Command::GotoLastPage, Some(0)), ShellAction::GotoPage(0));
}

#[test]
fn uncounted_goto_jumps_to_the_first_or_last_page() {
    assert_eq!(action(Command::GotoFirstPage, None), ShellAction::GotoPage(0));
    assert_eq!(action(Command::GotoLastPage, None), ShellAction::GotoPage(9));
}

#[test]
fn a_count_below_one_repeats_once() {
    assert_eq!(action(Command::ScrollDown, Some(0)), ShellAction::ScrollSteps { dx: 0, dy: 1 });
    assert_eq!(action(Command::ScrollDown, None), ShellAction::ScrollSteps { dx: 0, dy: 1 });
    assert_eq!(action(Command::ScrollLeft, Some(4)), ShellAction::ScrollSteps { dx: -4, dy: 0 });
    assert_eq!(action(Command::ZoomOut, Some(3)), ShellAction::ZoomSteps(-3));
    assert_eq!(action(Command::NextPage, Some(0)), ShellAction::NextPages(1));
    assert_eq!(action(Command::ScrollHalfPageUp, Some(2)), ShellAction::ScrollHalfPages(-2));
}

#[test]
fn view_commands_redraw_with_a_document() {
    let r = run(&mut normal_state(), Command::FitWidth, None);
    assert_eq!(r.effects, Effects::redraw());
    assert_eq!(r.action, ShellAction::FitWidth);
    assert!(!r.follow_view);
}

#[test]
fn view_commands_do_nothing_without_a_document() {
    let mut state = normal_state();
    for command in [Command::ScrollDown, Command::GotoLastPage, Command::ZoomIn, Command::NextPage] {
        let r = execute(&mut state, &document(), command, Some(2), None, top(), YELLOW, true);
        assert_eq!(r.effects, Effects::default());
        assert_eq!(r.action, ShellAction::Nothing);
    }
    assert_eq!(state, normal_state());
}

#[test]
fn page_jumps_carry_the_focus_along_in_focus_mode() {
    let mut state = normal_state();
    run(&mut state, Command::FocusEnterWord, None);
    assert_eq!(state.mode, Mode::Focus);
    assert!(run(&mut state, Command::NextPage, None).follow_view);
    assert!(run(&mut state, Command::ScrollPageDown, None).follow_view);
    assert!(!run(&mut state, Command::ScrollDown, None).follow_view);
    assert!(!run(&mut state, Command::ZoomIn, None).follow_view);
    assert!(!run(&mut normal_state(), Command::NextPage, None).follow_view);
}

#[test]
fn quit_quits_at_once_when_no_highlight_would_be_lost() {
    let r = run(&mut normal_state(), Command::Quit, None);
    assert!(r.effects.quit);
    assert!(!r.effects.confirm_quit);
}

#[test]
fn quit_asks_first_when_highlights_would_be_lost() {
    let mut state = normal_state();
    let r = execute(&mut state, &document(), Command::Quit, None, Some(10), top(), YELLOW, false);
    assert!(!r.effects.quit);
    assert!(r.effects.confirm_quit);
    assert!(r.effects.redraw);
}

#[test]
fn quit_from_highlight_mode_keeps_the_highlight_and_lands_in_focus() {
    let mut state = normal_state();
    run(&mut state, Command::FocusEnterWord, None);
    run(&mut state, Command::HighlightEnter, None);
    assert_eq!(state.mode, Mode::Highlight);
    let r = execute(&mut state, &document(), Command::Quit, None, Some(10), top(), YELLOW, false);
    assert!(r.effects.confirm_quit);
    assert_eq!(state.mode, Mode::Focus);
    assert!(state.pending.is_none());
    assert!(r.kept.is_some());
}

#[test]
fn open_file_asks_for_a_file_and_redraws() {
    let r = run(&mut normal_state(), Command::OpenFile, None);
    assert!(r.effects.open_file_dialog);
    assert!(r.effects.redraw);
    assert!(!r.effects.quit);
}

#[test]
fn cancel_only_redraws() {
    let r = run(&mut normal_state(), Command::Cancel, None);
    assert_eq!(r.effects, Effects::redraw());
    assert_eq!(r.action, ShellAction::Nothing);
}

#[test]
fn save_leaves_highlight_mode_and_asks_the_shell_to_write() {
    let mut state = normal_state();
    run(&mut state, Command::FocusEnterWord, None);
    run(&mut state, Command::HighlightEnter, None);
    let r = run(&mut state, Command::SaveDocument, None);
    assert_eq!(r.action, ShellAction::SaveDocument);
    assert_eq!(state.mode, Mode::Focus);
    assert!(r.kept.is_some());
}

#[test]
fn moves_across_the_reading_order_are_asked_of_the_shell() {
    let mut state = normal_state();
    run(&mut state, Command::FocusEnterWord, None);
    let before = state.clone();
    let r = run(&mut state, Command::FocusDown, Some(2));
    assert_eq!(r.action, ShellAction::MoveAcross { dir: Dir::Down, count: Some(2) });
    assert_eq!(state, before);
}

#[test]
fn moves_along_the_reading_order_happen_here() {
    let mut state = normal_state();
    run(&mut state, Command::FocusEnterWord, None);
    let r = run(&mut state, Command::FocusRight, None);
    assert_eq!(r.action, ShellAction::Nothing);
    assert_eq!(state.focus, Some(Caret { page: 0, line: 0, cell: 6 }));
}

fn chord(c: char) -> Chord {
    Chord::char(c)
}

fn keymaps(keys: &[(&str, &str)], focus_keys: &[(&str, &str)]) -> ModeKeymaps {
    let maps = build_keymaps("<Space>", keys, focus_keys, &[], &[]);
    assert!(maps.warnings.is_empty());
    maps
}

#[test]
fn dispatch_runs_the_fallback_and_then_the_replayed_key() {
    let maps = keymaps(&[("o", "cancel"), ("ow", "fit_width"), ("j", "scroll_down")], &[]);
    let mut input = InputState::new();
    let mut state = normal_state();
    assert_eq!(input.handle(&maps.normal, chord('o')), KeyOutcome::Pending);
    let outcome = input.handle(&maps.normal, chord('j'));
    assert_eq!(outcome, KeyOutcome::Command { command: Command::Cancel, count: None });
    let (effects, results) =
        dispatch(&mut state, &mut input, &maps, &document(), outcome, Some(10), top(), YELLOW, true);
    assert_eq!(results.len(), 2);
    assert_eq!(results[1].as_ref().unwrap().action, ShellAction::ScrollSteps { dx: 0, dy: 1 });
    assert!(effects.redraw);
    assert!(!effects.pending_input);
    assert_eq!(input.next_replay(), None);
}

#[test]
fn dispatch_resolves_replayed_keys_in_the_mode_just_entered() {
    let maps = keymaps(
        &[("o", "focus_enter_word"), ("ow", "fit_width"), ("l", "scroll_right")],
        &[("l", "focus_right")],
    );
    let mut input = InputState::new();
    let mut state = normal_state();
    input.handle(&maps.normal, chord('o'));
    let outcome = input.handle(&maps.normal, chord('l'));
    let (_, results) =
        dispatch(&mut state, &mut input, &maps, &document(), outcome, Some(10), top(), YELLOW, true);
    assert_eq!(results.len(), 2);
    assert_eq!(state.mode, Mode::Focus);
    assert_eq!(state.focus, Some(Caret { page: 0, line: 0, cell: 6 }));
}

#[test]
fn dispatch_stops_after_a_quit() {
    let maps = keymaps(&[("q", "quit"), ("qq", "fit_width"), ("j", "scroll_down")], &[]);
    let mut input = InputState::new();
    let mut state = normal_state();
    input.handle(&maps.normal, chord('q'));
    let outcome = input.handle(&maps.normal, chord('j'));
    let (effects, results) =
        dispatch(&mut state, &mut input, &maps, &document(), outcome, Some(10), top(), YELLOW, true);
    assert!(effects.quit);
    assert_eq!(results.len(), 1);
    assert_eq!(input.next_replay(), Some(chord('j')));
}

#[test]
fn dispatch_of_a_pending_outcome_redraws_and_reports_pending_input() {
    let maps = keymaps(&[("gg", "goto_first_page")], &[]);
    let mut input = InputState::new();
    let mut state = normal_state();
    let outcome = input.handle(&maps.normal, chord('g'));
    assert_eq!(outcome, KeyOutcome::Pending);
    let (effects, results) =
        dispatch(&mut state, &mut input, &maps, &document(), outcome, Some(10), top(), YELLOW, true);
    assert_eq!(results, vec![None]);
    assert!(effects.redraw);
    assert!(effects.pending_input);
}

#[test]
fn a_pass_hands_back_the_next_outcome_of_the_run() {
    let maps = keymaps(&[("o", "cancel"), ("ow", "fit_width"), ("j", "scroll_down")], &[]);
    let mut input = InputState::new();
    let mut state = normal_state();
    input.handle(&maps.normal, chord('o'));
    let outcome = input.handle(&maps.normal, chord('j'));
    let (effects, result, next) = dispatch_pass(
        &mut state, &mut input, &maps, &document(), outcome, Effects::default(), 0, Some(10), top(), YELLOW, true,
    );
    assert_eq!(effects, Effects::redraw());
    assert_eq!(result.unwrap().action, ShellAction::Nothing);
    assert_eq!(next, Some(KeyOutcome::Command { command: Command::ScrollDown, count: None }));
    let (_, result, next) = dispatch_pass(
        &mut state, &mut input, &maps, &document(), next.unwrap(), effects, 1, Some(10), top(), YELLOW, true,
    );
    assert_eq!(result.unwrap().action, ShellAction::ScrollSteps { dx: 0, dy: 1 });
    assert_eq!(next, None);
}

#[test]
fn the_last_allowed_pass_ends_the_run() {
    let maps = keymaps(&[("o", "cancel"), ("ow", "fit_width"), ("j", "scroll_down")], &[]);
    let mut input = InputState::new();
    let mut state = normal_state();
    input.handle(&maps.normal, chord('o'));
    let outcome = input.handle(&maps.normal, chord('j'));
    let (_, _, next) = dispatch_pass(
        &mut state, &mut input, &maps, &document(), outcome, Effects::default(), MAX_PASSES - 1, Some(10), top(), YELLOW, true,
    );
    assert_eq!(next, None);
}
