//! What one command does: the change to the mode and selection state, the
//! effects the shell must carry out, and the request it must perform on the
//! view or the file.
//!
//! The view (scroll position, zoom) is floating-point geometry and the file
//! is I/O, so both stay with the shell: a command asks for them through a
//! [`ShellAction`]. A move across the reading order (the goal column of
//! `j`/`k` at char and word scope, the column jumps of `h`/`l` from line scope
//! up) is measured on the page's geometry, so it too is a request.

use vstd::prelude::*;

use crate::caret::{Caret, Cell, ContentObject, Dir, Mode, PendingHighlight, Scope};
use crate::command::Command;
use crate::input::{handle_step, InputState, InputView, KeyOutcome};
use crate::keymaps::ModeKeymaps;
use crate::keys::Chord;
use crate::effects::merged;
use crate::effects::{no_effects, Effects};
use crate::scopes::repetitions;
use crate::selection::{
    can_highlight, discards_highlight, enters_highlight, focus_entered, focus_moved, head_moved,
    head_scope_set, normal, redrawn, swapped, visual_entered, visual_exited, SelectionState,
};
use crate::words::{well_spaced, DocumentText};

verus! {

/// What the shell must do on the view or the file after a command.
#[derive(Debug, Clone, Copy, PartialEq, Eq, Structural)]
pub enum ShellAction {
    Nothing,
    /// Scroll by whole scroll steps across and down (negative: left, up).
    ScrollSteps { dx: i64, dy: i64 },
    /// Scroll down by half viewport heights (negative: up).
    ScrollHalfPages(i64),
    /// Scroll down by whole viewport heights (negative: up).
    ScrollPages(i64),
    /// Go this many pages on.
    NextPages(usize),
    /// Go this many pages back.
    PrevPages(usize),
    /// Go to the page with this index, counted from zero.
    GotoPage(usize),
    /// Zoom in by this many zoom steps (negative: out).
    ZoomSteps(i64),
    FitWidth,
    ZoomReset,
    /// Centre the focused unit or the selection in the viewport.
    CenterView,
    /// Move the focus position, or a selection's moving end, `count` units of
    /// its scope across the reading order.
    MoveAcross { dir: Dir, count: Option<u32> },
    /// Write the highlights into the open document.
    SaveDocument,
}

/// The outcome of one command.
#[derive(Debug, Clone, PartialEq)]
pub struct CommandResult {
    /// What the shell must do right away.
    pub effects: Effects,
    /// What the shell must do on the view or the file.
    pub action: ShellAction,
    /// After the view action, move the focus to the top visible line: in
    /// focus mode a page jump or a page-sized scroll carries the focus along.
    pub follow_view: bool,
    /// A highlight that was being placed and is kept, to be stored.
    pub kept: Option<PendingHighlight>,
}

/// A result with effects `e` and nothing else.
pub open spec fn only(e: Effects) -> CommandResult {
    CommandResult { effects: e, action: ShellAction::Nothing, follow_view: false, kept: None }
}

/// A result with effects `e` that keeps `kept`.
pub open spec fn keeping(e: Effects, kept: Option<PendingHighlight>) -> CommandResult {
    CommandResult { effects: e, action: ShellAction::Nothing, follow_view: false, kept }
}

/// The effects of quitting at once.
pub open spec fn quitting() -> Effects {
    Effects { quit: true, ..no_effects() }
}

/// The effects of asking before quitting, because highlights would be lost.
pub open spec fn confirming_quit() -> Effects {
    Effects { confirm_quit: true, ..redrawn() }
}

/// The effects of asking for a file to open.
pub open spec fn opening_file() -> Effects {
    Effects { open_file_dialog: true, ..redrawn() }
}

/// Whether `command` acts on the view alone.
pub open spec fn is_view_command(command: Command) -> bool {
    match command {
        Command::ScrollDown | Command::ScrollUp | Command::ScrollLeft | Command::ScrollRight
        | Command::ScrollHalfPageDown | Command::ScrollHalfPageUp | Command::ScrollPageDown
        | Command::ScrollPageUp | Command::NextPage | Command::PrevPage | Command::GotoFirstPage
        | Command::GotoLastPage | Command::ZoomIn | Command::ZoomOut | Command::FitWidth
        | Command::ZoomReset => true,
        _ => false,
    }
}

/// Whether `command` moves the view by a page or more, so that focus mode
/// carries the focus along.
pub open spec fn moves_by_pages(command: Command) -> bool {
    match command {
        Command::ScrollHalfPageDown | Command::ScrollHalfPageUp | Command::ScrollPageDown
        | Command::ScrollPageUp | Command::NextPage | Command::PrevPage | Command::GotoFirstPage
        | Command::GotoLastPage => true,
        _ => false,
    }
}

/// The page a count names, counted from one: its index, and the first page
/// for a count of zero.
pub open spec fn page_named(n: u32) -> usize {
    if n > 0 {
        (n - 1) as usize
    } else {
        0
    }
}

/// The view request of a view command, repeated `count` times (at least
/// once); `{count}gg` and `{count}G` go to page `count` instead.
pub open spec fn view_action(command: Command, count: Option<u32>, page_count: usize) -> ShellAction {
    let n = repetitions(count) as int;
    match command {
        Command::ScrollDown => ShellAction::ScrollSteps { dx: 0, dy: n as i64 },
        Command::ScrollUp => ShellAction::ScrollSteps { dx: 0, dy: -n as i64 },
        Command::ScrollLeft => ShellAction::ScrollSteps { dx: -n as i64, dy: 0 },
        Command::ScrollRight => ShellAction::ScrollSteps { dx: n as i64, dy: 0 },
        Command::ScrollHalfPageDown => ShellAction::ScrollHalfPages(n as i64),
        Command::ScrollHalfPageUp => ShellAction::ScrollHalfPages(-n as i64),
        Command::ScrollPageDown => ShellAction::ScrollPages(n as i64),
        Command::ScrollPageUp => ShellAction::ScrollPages(-n as i64),
        Command::NextPage => ShellAction::NextPages(n as usize),
        Command::PrevPage => ShellAction::PrevPages(n as usize),
        Command::GotoFirstPage => ShellAction::GotoPage(
            match count {
                Some(p) => page_named(p),
                None => 0,
            },
        ),
        Command::GotoLastPage => ShellAction::GotoPage(
            match count {
                Some(p) => page_named(p),
                None => if page_count > 0 {
                    (page_count - 1) as usize
                } else {
                    0
                },
            },
        ),
        Command::ZoomIn => ShellAction::ZoomSteps(n as i64),
        Command::ZoomOut => ShellAction::ZoomSteps(-n as i64),
        Command::FitWidth => ShellAction::FitWidth,
        Command::ZoomReset => ShellAction::ZoomReset,
        _ => ShellAction::Nothing,
    }
}

/// Whether a move in `dir` at `scope` runs along the reading order: `h`/`l`
/// at char and word scope, `j`/`k` from line scope up.
pub open spec fn runs_along(scope: Scope, dir: Dir) -> bool {
    match dir {
        Dir::Left | Dir::Right => scope == Scope::Char || scope == Scope::Word,
        Dir::Up | Dir::Down => !(scope == Scope::Char || scope == Scope::Word),
    }
}

/// Whether `dir` points forward in reading order.
pub open spec fn points_forward(dir: Dir) -> bool {
    dir == Dir::Right || dir == Dir::Down
}

/// Moving the focus `count` units of its scope in `dir`.
pub open spec fn focus_toward(
    s: SelectionState,
    t: Seq<Seq<Seq<Cell>>>,
    o: Seq<Seq<ContentObject>>,
    g: Seq<Seq<(usize, usize)>>,
    has_document: bool,
    dir: Dir,
    count: Option<u32>,
    entry: Option<Caret>,
) -> (SelectionState, CommandResult) {
    if runs_along(s.focus_scope, dir) {
        let x = focus_moved(s, t, o, g, has_document, s.focus_scope, points_forward(dir), count, entry);
        (x.0, keeping(x.1, x.2))
    } else if !has_document {
        (s, only(no_effects()))
    } else {
        match s.focus {
            None => {
                let x = focus_entered(s, t, o, g, has_document, s.focus_scope, entry);
                (x.0, keeping(x.1, x.2))
            },
            Some(_) => (
                s,
                CommandResult {
                    effects: redrawn(),
                    action: ShellAction::MoveAcross { dir, count },
                    follow_view: false,
                    kept: None,
                },
            ),
        }
    }
}

/// Moving a selection's moving end `count` units of its scope in `dir`.
pub open spec fn head_toward(
    s: SelectionState,
    t: Seq<Seq<Seq<Cell>>>,
    o: Seq<Seq<ContentObject>>,
    g: Seq<Seq<(usize, usize)>>,
    dir: Dir,
    count: Option<u32>,
) -> (SelectionState, CommandResult) {
    if runs_along(s.focus_scope, dir) {
        let x = head_moved(s, t, o, g, s.focus_scope, points_forward(dir), count);
        (x.0, only(x.1))
    } else {
        match (s.visual, s.focus) {
            (Some(_), Some(_)) => (
                s,
                CommandResult {
                    effects: redrawn(),
                    action: ShellAction::MoveAcross { dir, count },
                    follow_view: false,
                    kept: None,
                },
            ),
            _ => (s, only(no_effects())),
        }
    }
}

/// Leaving highlight mode for focus mode, keeping the highlight, as quitting
/// and saving do; any other mode is left alone.
pub open spec fn out_of_highlight(
    s: SelectionState,
    t: Seq<Seq<Seq<Cell>>>,
    o: Seq<Seq<ContentObject>>,
    g: Seq<Seq<(usize, usize)>>,
    has_document: bool,
) -> (SelectionState, Option<PendingHighlight>) {
    if s.mode == Mode::Highlight {
        let x = focus_entered(s, t, o, g, has_document, s.focus_scope, None);
        (x.0, x.2)
    } else {
        (s, None)
    }
}

/// The state and result of a command whose outcome is a function of the
/// state: every command but entering and discarding a highlight.
pub open spec fn step_of(
    s: SelectionState,
    t: Seq<Seq<Seq<Cell>>>,
    o: Seq<Seq<ContentObject>>,
    g: Seq<Seq<(usize, usize)>>,
    command: Command,
    count: Option<u32>,
    page_count: Option<usize>,
    entry: Option<Caret>,
    highlights_empty: bool,
) -> (SelectionState, CommandResult) {
    let has_document = page_count is Some;
    let entered = |scope: Scope|
        {
            let x = focus_entered(s, t, o, g, has_document, scope, entry);
            (x.0, keeping(x.1, x.2))
        };
    let moved = |scope: Scope, forward: bool|
        {
            let x = focus_moved(s, t, o, g, has_document, scope, forward, count, entry);
            (x.0, keeping(x.1, x.2))
        };
    let visual = |scope: Option<Scope>|
        {
            let x = visual_entered(s, has_document, scope, entry);
            (x.0, keeping(x.1, x.2))
        };
    let head = |scope: Scope, forward: bool|
        {
            let x = head_moved(s, t, o, g, scope, forward, count);
            (x.0, only(x.1))
        };
    let head_scope = |scope: Scope, swap_first: bool|
        (
            head_scope_set(s, scope, swap_first),
            only(
                if s.visual is None {
                    no_effects()
                } else {
                    redrawn()
                },
            ),
        );
    if is_view_command(command) {
        match page_count {
            None => (s, only(no_effects())),
            Some(pc) => (
                s,
                CommandResult {
                    effects: redrawn(),
                    action: view_action(command, count, pc),
                    follow_view: s.mode == Mode::Focus && moves_by_pages(command),
                    kept: None,
                },
            ),
        }
    } else {
        match command {
            Command::Quit => {
                let x = out_of_highlight(s, t, o, g, has_document);
                (
                    x.0,
                    keeping(
                        if highlights_empty {
                            quitting()
                        } else {
                            confirming_quit()
                        },
                        x.1,
                    ),
                )
            },
            Command::SaveDocument => {
                let x = out_of_highlight(s, t, o, g, has_document);
                (
                    x.0,
                    CommandResult {
                        effects: no_effects(),
                        action: ShellAction::SaveDocument,
                        follow_view: false,
                        kept: x.1,
                    },
                )
            },
            Command::OpenFile => (s, only(opening_file())),
            Command::Cancel => (s, only(redrawn())),
            Command::CenterView => (
                s,
                CommandResult {
                    effects: no_effects(),
                    action: if has_document {
                        ShellAction::CenterView
                    } else {
                        ShellAction::Nothing
                    },
                    follow_view: false,
                    kept: None,
                },
            ),
            Command::FocusEnter => entered(s.focus_scope),
            Command::FocusEnterChar => entered(Scope::Char),
            Command::FocusEnterWord => entered(Scope::Word),
            Command::FocusEnterLine => entered(Scope::Line),
            Command::FocusEnterSentence => entered(Scope::Sentence),
            Command::FocusEnterParagraph => entered(Scope::Paragraph),
            Command::FocusExit => (normal(s), only(redrawn())),
            Command::FocusLeft => focus_toward(s, t, o, g, has_document, Dir::Left, count, entry),
            Command::FocusRight => focus_toward(s, t, o, g, has_document, Dir::Right, count, entry),
            Command::FocusUp => focus_toward(s, t, o, g, has_document, Dir::Up, count, entry),
            Command::FocusDown => focus_toward(s, t, o, g, has_document, Dir::Down, count, entry),
            Command::FocusNextWord => moved(Scope::Word, true),
            Command::FocusPrevWord => moved(Scope::Word, false),
            Command::FocusNextLine => moved(Scope::Line, true),
            Command::FocusNextSentence => moved(Scope::Sentence, true),
            Command::FocusNextParagraph => moved(Scope::Paragraph, true),
            Command::VisualEnter => visual(None),
            Command::VisualEnterChar => visual(Some(Scope::Char)),
            Command::VisualEnterWord => visual(Some(Scope::Word)),
            Command::VisualEnterLine => visual(Some(Scope::Line)),
            Command::VisualEnterSentence => visual(Some(Scope::Sentence)),
            Command::VisualEnterParagraph => visual(Some(Scope::Paragraph)),
            Command::VisualExit => (visual_exited(s), only(redrawn())),
            Command::VisualLeft => head_toward(s, t, o, g, Dir::Left, count),
            Command::VisualRight => head_toward(s, t, o, g, Dir::Right, count),
            Command::VisualUp => head_toward(s, t, o, g, Dir::Up, count),
            Command::VisualDown => head_toward(s, t, o, g, Dir::Down, count),
            Command::VisualNextWord => head(Scope::Word, true),
            Command::VisualPrevWord => head(Scope::Word, false),
            Command::VisualNextLine => head(Scope::Line, true),
            Command::VisualNextSentence => head(Scope::Sentence, true),
            Command::VisualNextParagraph => head(Scope::Paragraph, true),
            Command::VisualSwapEnds => if s.visual is None {
                (s, only(no_effects()))
            } else {
                (swapped(s), only(redrawn()))
            },
            Command::VisualScopeChar => head_scope(Scope::Char, false),
            Command::VisualScopeWord => head_scope(Scope::Word, false),
            Command::VisualScopeLine => head_scope(Scope::Line, false),
            Command::VisualScopeSentence => head_scope(Scope::Sentence, false),
            Command::VisualScopeParagraph => head_scope(Scope::Paragraph, false),
            Command::VisualOtherChar => head_scope(Scope::Char, true),
            Command::VisualOtherWord => head_scope(Scope::Word, true),
            Command::VisualOtherLine => head_scope(Scope::Line, true),
            Command::VisualOtherSentence => head_scope(Scope::Sentence, true),
            Command::VisualOtherParagraph => head_scope(Scope::Paragraph, true),
            Command::HighlightCommit => if s.pending is None {
                (s, only(no_effects()))
            } else {
                let x = focus_entered(s, t, o, g, has_document, s.focus_scope, None);
                (x.0, keeping(x.1, x.2))
            },
            _ => (s, only(no_effects())),
        }
    }
}

/// What `command` does to `s`, with `count` typed before it.
///
/// `page_count` is the number of pages of the open document (`None`: no
/// document), `entry` where focus or a selection starts when there is no
/// position yet (the topmost visible line), `color` the colour a new
/// highlight is placed in, and `highlights_empty` whether the document would
/// have no highlights once one being placed is stored.
///
/// View commands do nothing without a document. Quitting and saving keep a
/// highlight being placed and land in focus mode; quitting quits at once
/// when no highlight would be lost and asks first otherwise. Commands of the
/// help and side panels and annotations are the shell's own and change
/// nothing here.
pub open spec fn executed(
    s: SelectionState,
    t: Seq<Seq<Seq<Cell>>>,
    o: Seq<Seq<ContentObject>>,
    g: Seq<Seq<(usize, usize)>>,
    command: Command,
    count: Option<u32>,
    page_count: Option<usize>,
    entry: Option<Caret>,
    color: Seq<char>,
    highlights_empty: bool,
    after: SelectionState,
    r: CommandResult,
) -> bool {
    match command {
        Command::HighlightEnter => if can_highlight(s, page_count is Some) {
            enters_highlight(s, after, color) && r == only(redrawn())
        } else {
            after == s && r == only(no_effects())
        },
        Command::HighlightDiscard => discards_highlight(s, after) && r == only(
            if s.pending is Some {
                redrawn()
            } else {
                no_effects()
            },
        ),
        _ => (after, r) == step_of(
            s,
            t,
            o,
            g,
            command,
            count,
            page_count,
            entry,
            highlights_empty,
        ),
    }
}

/// The result with effects `e` and nothing else.
fn only_effects(e: Effects) -> (r: CommandResult)
    ensures
        r == only(e),
{
    CommandResult { effects: e, action: ShellAction::Nothing, follow_view: false, kept: None }
}

/// The result with effects and a kept highlight from a state change.
fn kept_result(r: (Effects, Option<PendingHighlight>)) -> (c: CommandResult)
    ensures
        c == keeping(r.0, r.1),
{
    CommandResult { effects: r.0, action: ShellAction::Nothing, follow_view: false, kept: r.1 }
}

/// How many times a command with `count` repeats: once without a count, and
/// at least once with one.
fn times(count: Option<u32>) -> (n: u32)
    ensures
        n == repetitions(count),
{
    match count {
        Some(c) => if c >= 1 {
            c
        } else {
            1
        },
        None => 1,
    }
}

/// The page index a count names.
fn page_index(n: u32) -> (r: usize)
    ensures
        r == page_named(n),
{
    if n > 0 {
        (n - 1) as usize
    } else {
        0
    }
}

/// The view request of a view command.
fn view_request(command: Command, count: Option<u32>, page_count: usize) -> (a: ShellAction)
    requires
        is_view_command(command),
    ensures
        a == view_action(command, count, page_count),
{
    let n = times(count);
    let steps = n as i64;
    match command {
        Command::ScrollDown => ShellAction::ScrollSteps { dx: 0, dy: steps },
        Command::ScrollUp => ShellAction::ScrollSteps { dx: 0, dy: -steps },
        Command::ScrollLeft => ShellAction::ScrollSteps { dx: -steps, dy: 0 },
        Command::ScrollRight => ShellAction::ScrollSteps { dx: steps, dy: 0 },
        Command::ScrollHalfPageDown => ShellAction::ScrollHalfPages(steps),
        Command::ScrollHalfPageUp => ShellAction::ScrollHalfPages(-steps),
        Command::ScrollPageDown => ShellAction::ScrollPages(steps),
        Command::ScrollPageUp => ShellAction::ScrollPages(-steps),
        Command::NextPage => ShellAction::NextPages(n as usize),
        Command::PrevPage => ShellAction::PrevPages(n as usize),
        Command::GotoFirstPage => ShellAction::GotoPage(
            match count {
                Some(p) => page_index(p),
                None => 0,
            },
        ),
        Command::GotoLastPage => ShellAction::GotoPage(
            match count {
                Some(p) => page_index(p),
                None => if page_count > 0 {
                    page_count - 1
                } else {
                    0
                },
            },
        ),
        Command::ZoomIn => ShellAction::ZoomSteps(steps),
        Command::ZoomOut => ShellAction::ZoomSteps(-steps),
        Command::FitWidth => ShellAction::FitWidth,
        _ => ShellAction::ZoomReset,
    }
}

/// Whether a view command moves the view by a page or more.
fn pages_far(command: Command) -> (b: bool)
    ensures
        b == moves_by_pages(command),
{
    match command {
        Command::ScrollHalfPageDown | Command::ScrollHalfPageUp | Command::ScrollPageDown
        | Command::ScrollPageUp | Command::NextPage | Command::PrevPage | Command::GotoFirstPage
        | Command::GotoLastPage => true,
        _ => false,
    }
}

/// Whether a command acts on the view alone.
fn view_command(command: Command) -> (b: bool)
    ensures
        b == is_view_command(command),
{
    match command {
        Command::ScrollDown | Command::ScrollUp | Command::ScrollLeft | Command::ScrollRight
        | Command::ScrollHalfPageDown | Command::ScrollHalfPageUp | Command::ScrollPageDown
        | Command::ScrollPageUp | Command::NextPage | Command::PrevPage | Command::GotoFirstPage
        | Command::GotoLastPage | Command::ZoomIn | Command::ZoomOut | Command::FitWidth
        | Command::ZoomReset => true,
        _ => false,
    }
}

/// Whether `command` acts on a selection: entering, leaving and shaping it.
pub open spec fn is_selection_command(command: Command) -> bool {
    match command {
        Command::VisualEnter | Command::VisualEnterChar | Command::VisualEnterWord
        | Command::VisualEnterLine | Command::VisualEnterSentence | Command::VisualEnterParagraph
        | Command::VisualExit | Command::VisualLeft | Command::VisualRight | Command::VisualUp
        | Command::VisualDown | Command::VisualNextWord | Command::VisualPrevWord
        | Command::VisualNextLine | Command::VisualNextSentence | Command::VisualNextParagraph
        | Command::VisualSwapEnds | Command::VisualScopeChar | Command::VisualScopeWord
        | Command::VisualScopeLine | Command::VisualScopeSentence | Command::VisualScopeParagraph
        | Command::VisualOtherChar | Command::VisualOtherWord | Command::VisualOtherLine
        | Command::VisualOtherSentence | Command::VisualOtherParagraph => true,
        _ => false,
    }
}

/// Whether a command acts on a selection.
fn selection_command(command: Command) -> (b: bool)
    ensures
        b == is_selection_command(command),
{
    match command {
        Command::VisualEnter | Command::VisualEnterChar | Command::VisualEnterWord
        | Command::VisualEnterLine | Command::VisualEnterSentence | Command::VisualEnterParagraph
        | Command::VisualExit | Command::VisualLeft | Command::VisualRight | Command::VisualUp
        | Command::VisualDown | Command::VisualNextWord | Command::VisualPrevWord
        | Command::VisualNextLine | Command::VisualNextSentence | Command::VisualNextParagraph
        | Command::VisualSwapEnds | Command::VisualScopeChar | Command::VisualScopeWord
        | Command::VisualScopeLine | Command::VisualScopeSentence | Command::VisualScopeParagraph
        | Command::VisualOtherChar | Command::VisualOtherWord | Command::VisualOtherLine
        | Command::VisualOtherSentence | Command::VisualOtherParagraph => true,
        _ => false,
    }
}

/// Whether a move in `dir` at `scope` runs along the reading order.
fn along(scope: Scope, dir: Dir) -> (b: bool)
    ensures
        b == runs_along(scope, dir),
{
    match dir {
        Dir::Left | Dir::Right => scope == Scope::Char || scope == Scope::Word,
        Dir::Up | Dir::Down => !(scope == Scope::Char || scope == Scope::Word),
    }
}

/// Move the focus `count` units of its scope in `dir`.
fn move_focus_toward(
    state: &mut SelectionState,
    text: &DocumentText,
    has_document: bool,
    dir: Dir,
    count: Option<u32>,
    entry: Option<Caret>,
) -> (r: CommandResult)
    requires
        well_spaced(text.text()),
        text.paragraphs_fit(),
    ensures
        (*final(state), r) == focus_toward(
            *old(state),
            text.text(),
            text.object_table(),
            text.segment_table(),
            has_document,
            dir,
            count,
            entry,
        ),
{
    let scope = state.focus_scope;
    if along(scope, dir) {
        let forward = dir == Dir::Right || dir == Dir::Down;
        return kept_result(state.move_focus(text, has_document, scope, forward, count, entry));
    }
    if !has_document {
        return only_effects(Effects::default());
    }
    match state.focus {
        None => kept_result(state.enter_focus(text, has_document, scope, entry)),
        Some(_) => CommandResult {
            effects: Effects::redraw(),
            action: ShellAction::MoveAcross { dir, count },
            follow_view: false,
            kept: None,
        },
    }
}

/// Move a selection's moving end `count` units of its scope in `dir`.
fn move_head_toward(
    state: &mut SelectionState,
    text: &DocumentText,
    dir: Dir,
    count: Option<u32>,
) -> (r: CommandResult)
    requires
        well_spaced(text.text()),
        text.paragraphs_fit(),
    ensures
        (*final(state), r) == head_toward(
            *old(state),
            text.text(),
            text.object_table(),
            text.segment_table(),
            dir,
            count,
        ),
{
    let scope = state.focus_scope;
    if along(scope, dir) {
        let forward = dir == Dir::Right || dir == Dir::Down;
        return only_effects(state.move_head(text, scope, forward, count));
    }
    if state.visual.is_some() && state.focus.is_some() {
        CommandResult {
            effects: Effects::redraw(),
            action: ShellAction::MoveAcross { dir, count },
            follow_view: false,
            kept: None,
        }
    } else {
        only_effects(Effects::default())
    }
}

/// Leave highlight mode for focus mode, keeping the highlight; any other
/// mode is left alone.
fn leave_highlight(state: &mut SelectionState, text: &DocumentText, has_document: bool) -> (kept:
    Option<PendingHighlight>)
    requires
        well_spaced(text.text()),
        text.paragraphs_fit(),
    ensures
        (*final(state), kept) == out_of_highlight(
            *old(state),
            text.text(),
            text.object_table(),
            text.segment_table(),
            has_document,
        ),
{
    if state.mode == Mode::Highlight {
        let scope = state.focus_scope;
        state.enter_focus(text, has_document, scope, None).1
    } else {
        None
    }
}

/// Set the moving end's scope, with the effects as a result.
fn set_head(state: &mut SelectionState, scope: Scope, swap_first: bool) -> (r: CommandResult)
    ensures
        *final(state) == head_scope_set(*old(state), scope, swap_first),
        r == only(
            if old(state).visual is None {
                no_effects()
            } else {
                redrawn()
            },
        ),
{
    only_effects(state.set_head_scope(scope, swap_first))
}

/// Run a command that enters, leaves or shapes a selection.
#[verifier::rlimit(50)]
fn execute_selection(
    state: &mut SelectionState,
    text: &DocumentText,
    command: Command,
    count: Option<u32>,
    page_count: Option<usize>,
    entry: Option<Caret>,
    highlights_empty: bool,
) -> (r: CommandResult)
    requires
        well_spaced(text.text()),
        text.paragraphs_fit(),
        is_selection_command(command),
    ensures
        (*final(state), r) == step_of(
            *old(state),
            text.text(),
            text.object_table(),
            text.segment_table(),
            command,
            count,
            page_count,
            entry,
            highlights_empty,
        ),
{
    let has_document = page_count.is_some();
    match command {
        Command::VisualEnter => kept_result(state.enter_visual(has_document, None, entry)),
        Command::VisualEnterChar => kept_result(state.enter_visual(has_document, Some(Scope::Char), entry)),
        Command::VisualEnterWord => kept_result(state.enter_visual(has_document, Some(Scope::Word), entry)),
        Command::VisualEnterLine => kept_result(state.enter_visual(has_document, Some(Scope::Line), entry)),
        Command::VisualEnterSentence => kept_result(
            state.enter_visual(has_document, Some(Scope::Sentence), entry),
        ),
        Command::VisualEnterParagraph => kept_result(
            state.enter_visual(has_document, Some(Scope::Paragraph), entry),
        ),
        Command::VisualExit => only_effects(state.exit_visual()),
        Command::VisualLeft => move_head_toward(state, text, Dir::Left, count),
        Command::VisualRight => move_head_toward(state, text, Dir::Right, count),
        Command::VisualUp => move_head_toward(state, text, Dir::Up, count),
        Command::VisualDown => move_head_toward(state, text, Dir::Down, count),
        Command::VisualNextWord => only_effects(state.move_head(text, Scope::Word, true, count)),
        Command::VisualPrevWord => only_effects(state.move_head(text, Scope::Word, false, count)),
        Command::VisualNextLine => only_effects(state.move_head(text, Scope::Line, true, count)),
        Command::VisualNextSentence => only_effects(state.move_head(text, Scope::Sentence, true, count)),
        Command::VisualNextParagraph => only_effects(
            state.move_head(text, Scope::Paragraph, true, count),
        ),
        Command::VisualSwapEnds => only_effects(state.visual_swap_ends()),
        Command::VisualScopeChar => set_head(state, Scope::Char, false),
        Command::VisualScopeWord => set_head(state, Scope::Word, false),
        Command::VisualScopeLine => set_head(state, Scope::Line, false),
        Command::VisualScopeSentence => set_head(state, Scope::Sentence, false),
        Command::VisualScopeParagraph => set_head(state, Scope::Paragraph, false),
        Command::VisualOtherChar => set_head(state, Scope::Char, true),
        Command::VisualOtherWord => set_head(state, Scope::Word, true),
        Command::VisualOtherLine => set_head(state, Scope::Line, true),
        Command::VisualOtherSentence => set_head(state, Scope::Sentence, true),
        _ => set_head(state, Scope::Paragraph, true),
    }
}

/// Run a command that is neither a view command nor one on a selection.
#[verifier::rlimit(50)]
fn execute_other(
    state: &mut SelectionState,
    text: &DocumentText,
    command: Command,
    count: Option<u32>,
    page_count: Option<usize>,
    entry: Option<Caret>,
    highlight_color: &str,
    highlights_empty: bool,
) -> (r: CommandResult)
    requires
        well_spaced(text.text()),
        text.paragraphs_fit(),
        !is_selection_command(command),
        !is_view_command(command),
    ensures
        executed(
            *old(state),
            text.text(),
            text.object_table(),
            text.segment_table(),
            command,
            count,
            page_count,
            entry,
            highlight_color@,
            highlights_empty,
            *final(state),
            r,
        ),
{
    let has_document = page_count.is_some();
    match command {
        Command::HighlightEnter => only_effects(state.enter_highlight(has_document, highlight_color)),
        Command::HighlightDiscard => only_effects(state.discard_highlight()),
        Command::HighlightCommit => kept_result(state.commit_highlight(text, has_document)),
        Command::Quit => {
            let kept = leave_highlight(state, text, has_document);
            let effects = if highlights_empty {
                Effects { quit: true, ..Effects::default() }
            } else {
                Effects { confirm_quit: true, ..Effects::redraw() }
            };
            CommandResult { effects, action: ShellAction::Nothing, follow_view: false, kept }
        },
        Command::SaveDocument => {
            let kept = leave_highlight(state, text, has_document);
            CommandResult {
                effects: Effects::default(),
                action: ShellAction::SaveDocument,
                follow_view: false,
                kept,
            }
        },
        Command::OpenFile => only_effects(Effects { open_file_dialog: true, ..Effects::redraw() }),
        Command::Cancel => only_effects(Effects::redraw()),
        Command::CenterView => CommandResult {
            effects: Effects::default(),
            action: if has_document {
                ShellAction::CenterView
            } else {
                ShellAction::Nothing
            },
            follow_view: false,
            kept: None,
        },
        Command::FocusEnter => {
            let scope = state.focus_scope;
            kept_result(state.enter_focus(text, has_document, scope, entry))
        },
        Command::FocusEnterChar => kept_result(state.enter_focus(text, has_document, Scope::Char, entry)),
        Command::FocusEnterWord => kept_result(state.enter_focus(text, has_document, Scope::Word, entry)),
        Command::FocusEnterLine => kept_result(state.enter_focus(text, has_document, Scope::Line, entry)),
        Command::FocusEnterSentence => kept_result(
            state.enter_focus(text, has_document, Scope::Sentence, entry),
        ),
        Command::FocusEnterParagraph => kept_result(
            state.enter_focus(text, has_document, Scope::Paragraph, entry),
        ),
        Command::FocusExit => {
            state.enter_normal_mode();
            only_effects(Effects::redraw())
        },
        Command::FocusLeft => move_focus_toward(state, text, has_document, Dir::Left, count, entry),
        Command::FocusRight => move_focus_toward(state, text, has_document, Dir::Right, count, entry),
        Command::FocusUp => move_focus_toward(state, text, has_document, Dir::Up, count, entry),
        Command::FocusDown => move_focus_toward(state, text, has_document, Dir::Down, count, entry),
        Command::FocusNextWord => kept_result(
            state.move_focus(text, has_document, Scope::Word, true, count, entry),
        ),
        Command::FocusPrevWord => kept_result(
            state.move_focus(text, has_document, Scope::Word, false, count, entry),
        ),
        Command::FocusNextLine => kept_result(
            state.move_focus(text, has_document, Scope::Line, true, count, entry),
        ),
        Command::FocusNextSentence => kept_result(
            state.move_focus(text, has_document, Scope::Sentence, true, count, entry),
        ),
        Command::FocusNextParagraph => kept_result(
            state.move_focus(text, has_document, Scope::Paragraph, true, count, entry),
        ),
        _ => only_effects(Effects::default()),
    }
}

/// Run `command`, typed with `count`, on the mode and selection state.
///
/// `page_count` is the number of pages of the open document (`None`: no
/// document), `entry` the topmost visible line, where focus or a selection
/// starts when there is no position yet, `highlight_color` the colour a new
/// highlight is placed in, and `highlights_empty` whether the document would
/// have no highlights once one being placed is stored. The result says what
/// the shell must do: its effects, the request on the view or the file, and
/// a highlight to store.
pub fn execute(
    state: &mut SelectionState,
    text: &DocumentText,
    command: Command,
    count: Option<u32>,
    page_count: Option<usize>,
    entry: Option<Caret>,
    highlight_color: &str,
    highlights_empty: bool,
) -> (r: CommandResult)
    requires
        well_spaced(text.text()),
        text.paragraphs_fit(),
    ensures
        executed(
            *old(state),
            text.text(),
            text.object_table(),
            text.segment_table(),
            command,
            count,
            page_count,
            entry,
            highlight_color@,
            highlights_empty,
            *final(state),
            r,
        ),
{
    if view_command(command) {
        return match page_count {
            None => only_effects(Effects::default()),
            Some(pc) => CommandResult {
                effects: Effects::redraw(),
                action: view_request(command, count, pc),
                follow_view: state.mode == Mode::Focus && pages_far(command),
                kept: None,
            },
        };
    }
    if selection_command(command) {
        execute_selection(state, text, command, count, page_count, entry, highlights_empty)
    } else {
        execute_other(
            state,
            text,
            command,
            count,
            page_count,
            entry,
            highlight_color,
            highlights_empty,
        )
    }
}

/// The most passes one key press runs: an outcome and the chords its
/// fallback queued, each run in turn.
pub const MAX_PASSES: usize = 32;

/// The key table of `maps` that resolves keys in `mode`.
pub open spec fn table_for(maps: ModeKeymaps, mode: Mode) -> Map<Seq<Chord>, Command> {
    match mode {
        Mode::Normal => maps.normal@,
        Mode::Focus => maps.focus@,
        Mode::Visual => maps.visual@,
        Mode::Highlight => maps.highlight@,
    }
}

/// The effects of one pass: those of the command run, or a redraw for an
/// outcome that ran none (so the status line shows pending input).
pub open spec fn pass_effects(res: Option<CommandResult>) -> Effects {
    match res {
        Some(r) => r.effects,
        None => redrawn(),
    }
}

/// One pass: `outcome` runs on state `s` with input `inp` and the effects
/// `acc` of the passes before it, which number `i`; the pass leaves state
/// `s2`, input `inp2`, result `res` and effects `acc2`, and `next` is the
/// outcome of the next pass. The run stops (`next` is `None`) after a
/// command that quits or asks to, when no chord is queued, or after
/// [`MAX_PASSES`] passes; otherwise the next queued chord is taken off the
/// queue and resolved with the table of the mode the pass left.
pub open spec fn passed(
    maps: ModeKeymaps,
    t: Seq<Seq<Seq<Cell>>>,
    o: Seq<Seq<ContentObject>>,
    g: Seq<Seq<(usize, usize)>>,
    page_count: Option<usize>,
    entry: Option<Caret>,
    color: Seq<char>,
    highlights_empty: bool,
    s: SelectionState,
    inp: InputView,
    outcome: KeyOutcome,
    acc: Effects,
    i: int,
    s2: SelectionState,
    inp2: InputView,
    res: Option<CommandResult>,
    acc2: Effects,
    next: Option<KeyOutcome>,
) -> bool {
    &&& match outcome {
        KeyOutcome::Command { command, count } => res is Some && executed(
            s,
            t,
            o,
            g,
            command,
            count,
            page_count,
            entry,
            color,
            highlights_empty,
            s2,
            res.unwrap(),
        ),
        _ => res is None && s2 == s,
    }
    &&& acc2 == merged(acc, pass_effects(res))
    &&& if acc2.quit || acc2.confirm_quit || inp.replay.len() == 0 {
        next is None && inp2 == inp
    } else {
        let popped = InputView { replay: inp.replay.skip(1), ..inp };
        let step = handle_step(table_for(maps, s2.mode), popped, inp.replay[0]);
        &&& inp2 == step.0
        &&& next == if i + 1 < MAX_PASSES {
            Some(step.1)
        } else {
            None
        }
    }
}

/// Run pass number `passes` (counted from zero) of one key press:
/// `outcome`, with `effects` the effects of the passes before it. Returns
/// the effects so far, the result of the command run (`None` for an outcome
/// that ran none) and the outcome of the next pass, `None` when the run
/// stops. A shell that must act on the view between passes runs the loop
/// itself with this function; [`dispatch`] runs the whole loop at once.
pub fn dispatch_pass(
    state: &mut SelectionState,
    input: &mut InputState,
    keymaps: &ModeKeymaps,
    text: &DocumentText,
    outcome: KeyOutcome,
    effects: Effects,
    passes: usize,
    page_count: Option<usize>,
    entry: Option<Caret>,
    highlight_color: &str,
    highlights_empty: bool,
) -> (r: (Effects, Option<CommandResult>, Option<KeyOutcome>))
    requires
        keymaps.wf(),
        well_spaced(text.text()),
        text.paragraphs_fit(),
        passes < MAX_PASSES,
    ensures
        passed(
            *keymaps,
            text.text(),
            text.object_table(),
            text.segment_table(),
            page_count,
            entry,
            highlight_color@,
            highlights_empty,
            *old(state),
            old(input)@,
            outcome,
            effects,
            passes as int,
            *final(state),
            final(input)@,
            r.1,
            r.0,
            r.2,
        ),
{
    let res: Option<CommandResult> = match outcome {
        KeyOutcome::Command { command, count } => Some(
            execute(
                state,
                text,
                command,
                count,
                page_count,
                entry,
                highlight_color,
                highlights_empty,
            ),
        ),
        _ => None,
    };
    let pass = match &res {
        Some(r) => r.effects,
        None => Effects::redraw(),
    };
    let merged_effects = effects.merge(pass);
    if merged_effects.quit || merged_effects.confirm_quit {
        return (merged_effects, res, None);
    }
    match input.next_replay() {
        None => (merged_effects, res, None),
        Some(chord) => {
            let keymap = keymaps.for_mode(state.mode);
            let next = input.handle(keymap, chord);
            if passes + 1 < MAX_PASSES {
                (merged_effects, res, Some(next))
            } else {
                (merged_effects, res, None)
            }
        },
    }
}

/// Whether none of the first `i` passes kept a highlight to be stored.
pub open spec fn none_kept(res: Seq<Option<CommandResult>>, i: int) -> bool {
    forall|j: int| 0 <= j < i ==> !(#[trigger] res[j] matches Some(r) && r.kept is Some)
}

/// Pass `i` of a run of `n`: the pass from `s[i]`, `ins[i]`, `outs[i]` and
/// `acc[i]` to `s[i + 1]`, `ins[i + 1]`, `res[i]` and `acc[i + 1]`, whose
/// next outcome is `outs[i + 1]` when it is not the last. The document
/// counts as free of highlights in a pass when it was before the run and no
/// earlier pass kept one.
pub open spec fn pass_holds(
    maps: ModeKeymaps,
    t: Seq<Seq<Seq<Cell>>>,
    o: Seq<Seq<ContentObject>>,
    g: Seq<Seq<(usize, usize)>>,
    page_count: Option<usize>,
    entry: Option<Caret>,
    color: Seq<char>,
    highlights_empty: bool,
    s: Seq<SelectionState>,
    ins: Seq<InputView>,
    outs: Seq<KeyOutcome>,
    res: Seq<Option<CommandResult>>,
    acc: Seq<Effects>,
    n: int,
    i: int,
) -> bool {
    passed(
        maps,
        t,
        o,
        g,
        page_count,
        entry,
        color,
        highlights_empty && none_kept(res, i),
        s[i],
        ins[i],
        outs[i],
        acc[i],
        i,
        s[i + 1],
        ins[i + 1],
        res[i],
        acc[i + 1],
        if i + 1 < n {
            Some(outs[i + 1])
        } else {
            None
        },
    )
}

/// `n` passes of a run that starts from `outcome`, state `s[0]` and input
/// `ins[0]`.
pub open spec fn run_holds(
    maps: ModeKeymaps,
    t: Seq<Seq<Seq<Cell>>>,
    o: Seq<Seq<ContentObject>>,
    g: Seq<Seq<(usize, usize)>>,
    page_count: Option<usize>,
    entry: Option<Caret>,
    color: Seq<char>,
    highlights_empty: bool,
    outcome: KeyOutcome,
    s: Seq<SelectionState>,
    ins: Seq<InputView>,
    outs: Seq<KeyOutcome>,
    res: Seq<Option<CommandResult>>,
    acc: Seq<Effects>,
    n: int,
) -> bool {
    &&& 1 <= n <= MAX_PASSES
    &&& s.len() == n + 1 && ins.len() == n + 1 && outs.len() == n && res.len() == n && acc.len()
        == n + 1
    &&& outs[0] == outcome
    &&& acc[0] == no_effects()
    &&& forall|i: int|
        0 <= i < n ==> #[trigger] pass_holds(
            maps,
            t,
            o,
            g,
            page_count,
            entry,
            color,
            highlights_empty,
            s,
            ins,
            outs,
            res,
            acc,
            n,
            i,
        )
}

/// A run of `results.len()` passes leads from `before` and `input_before`
/// to `after` and `input_after` and gives `effects`: the effects of every
/// pass merged, with `pending_input` set exactly when a partial sequence is
/// still buffered.
pub open spec fn dispatched(
    maps: ModeKeymaps,
    t: Seq<Seq<Seq<Cell>>>,
    o: Seq<Seq<ContentObject>>,
    g: Seq<Seq<(usize, usize)>>,
    page_count: Option<usize>,
    entry: Option<Caret>,
    color: Seq<char>,
    highlights_empty: bool,
    outcome: KeyOutcome,
    before: SelectionState,
    input_before: InputView,
    after: SelectionState,
    input_after: InputView,
    effects: Effects,
    results: Seq<Option<CommandResult>>,
) -> bool {
    exists|s: Seq<SelectionState>, ins: Seq<InputView>, outs: Seq<KeyOutcome>, acc: Seq<Effects>|
        #![trigger run_holds(maps, t, o, g, page_count, entry, color, highlights_empty, outcome, s, ins, outs, results, acc, results.len() as int)]
        {
            let n = results.len() as int;
            &&& run_holds(maps, t, o, g, page_count, entry, color, highlights_empty, outcome, s, ins, outs, results, acc, n)
            &&& s[0] == before
            &&& ins[0] == input_before
            &&& s[n] == after
            &&& ins[n] == input_after
            &&& effects == (Effects { pending_input: input_after.pending.len() > 0, ..acc[n] })
        }
}

/// Run one input outcome and then every chord its fallback queued, each
/// resolved with the table of the mode the previous command left: the
/// run stops after a command that quits or asks to, when nothing is queued,
/// or after [`MAX_PASSES`] passes. A highlight kept by one pass counts as
/// stored for the passes after it. Returns the effects of all the passes
/// together, with `pending_input` set when a partial sequence is still
/// buffered, and the result of each pass, `None` for one that ran no
/// command. The view requests of the results are the shell's to carry out
/// once the run is over.
#[verifier::rlimit(50)]
pub fn dispatch(
    state: &mut SelectionState,
    input: &mut InputState,
    keymaps: &ModeKeymaps,
    text: &DocumentText,
    outcome: KeyOutcome,
    page_count: Option<usize>,
    entry: Option<Caret>,
    highlight_color: &str,
    highlights_empty: bool,
) -> (r: (Effects, Vec<Option<CommandResult>>))
    requires
        keymaps.wf(),
        well_spaced(text.text()),
        text.paragraphs_fit(),
    ensures
        dispatched(
            *keymaps,
            text.text(),
            text.object_table(),
            text.segment_table(),
            page_count,
            entry,
            highlight_color@,
            highlights_empty,
            outcome,
            *old(state),
            old(input)@,
            *final(state),
            final(input)@,
            r.0,
            r.1@,
        ),
{
    let ghost t = text.text();
    let ghost o = text.object_table();
    let ghost g = text.segment_table();
    let ghost mut s: Seq<SelectionState> = seq![*state];
    let ghost mut ins: Seq<InputView> = seq![input@];
    let ghost mut outs: Seq<KeyOutcome> = seq![outcome];
    let ghost mut acc: Seq<Effects> = seq![no_effects()];
    let mut results: Vec<Option<CommandResult>> = Vec::new();
    let mut effects = Effects::default();
    let mut current = outcome;
    let mut passes: usize = 0;
    let mut empty = highlights_empty;
    loop
        invariant_except_break
            passes < MAX_PASSES,
            outs.len() == passes + 1,
            outs[passes as int] == current,
        invariant
            keymaps.wf(),
            well_spaced(text.text()),
            text.paragraphs_fit(),
            t == text.text(),
            o == text.object_table(),
            g == text.segment_table(),
            passes <= MAX_PASSES,
            s.len() == passes + 1,
            ins.len() == passes + 1,
            results@.len() == passes,
            acc.len() == passes + 1,
            s[0] == *old(state),
            ins[0] == old(input)@,
            outs[0] == outcome,
            acc[0] == no_effects(),
            s[passes as int] == *state,
            ins[passes as int] == input@,
            acc[passes as int] == effects,
            empty == (highlights_empty && none_kept(results@, passes as int)),
            forall|i: int|
                0 <= i < passes ==> #[trigger] pass_holds(
                    *keymaps,
                    t,
                    o,
                    g,
                    page_count,
                    entry,
                    highlight_color@,
                    highlights_empty,
                    s,
                    ins,
                    outs,
                    results@,
                    acc,
                    outs.len() as int,
                    i,
                ),
        ensures
            1 <= passes <= MAX_PASSES,
            outs.len() == passes,
        decreases MAX_PASSES - passes,
    {
        let ghost i = passes as int;
        let ghost res0 = results@;
        let ghost outs0 = outs;
        let ghost s0 = s;
        let ghost ins0 = ins;
        let ghost acc0 = acc;
        let (merged_effects, res, next) = dispatch_pass(
            state,
            input,
            keymaps,
            text,
            current,
            effects,
            passes,
            page_count,
            entry,
            highlight_color,
            empty,
        );
        let kept = match &res {
            Some(r) => r.kept.is_some(),
            None => false,
        };
        effects = merged_effects;
        results.push(res);
        proof {
            s = s.push(*state);
            ins = ins.push(input@);
            acc = acc.push(effects);
            assert(none_kept(results@, i) == none_kept(res0, i)) by {
                assert forall|j: int| 0 <= j < i implies results@[j] == res0[j] by {}
            }
        }
        proof {
            assert(kept == (results@[i] matches Some(r) && r.kept is Some));
            assert(none_kept(results@, i + 1) == (none_kept(res0, i) && !kept)) by {
                assert forall|j: int| 0 <= j < i implies results@[j] == res0[j] by {}
                if !none_kept(results@, i + 1) {
                    let j = choose|j: int|
                        0 <= j < i + 1 && (#[trigger] results@[j] matches Some(r) && r.kept is Some);
                    if j < i {
                        assert(res0[j] == results@[j]);
                    }
                }
            }
        }
        empty = empty && !kept;
        passes = passes + 1;
        match next {
            None => {
                proof {
                    assert forall|k: int| 0 <= k < passes implies #[trigger] pass_holds(
                        *keymaps,
                        t,
                        o,
                        g,
                        page_count,
                        entry,
                        highlight_color@,
                        highlights_empty,
                        s,
                        ins,
                        outs,
                        results@,
                        acc,
                        outs.len() as int,
                        k,
                    ) by {
                        if k < i {
                            assert(pass_holds(*keymaps, t, o, g, page_count, entry, highlight_color@, highlights_empty, s0, ins0, outs0, res0, acc0, outs0.len() as int, k));
                            assert(none_kept(results@, k) == none_kept(res0, k)) by {
                                assert forall|j: int| 0 <= j < k implies results@[j] == res0[j] by {}
                            }
                            assert(s[k] == s0[k] && s[k + 1] == s0[k + 1]);
                            assert(ins[k] == ins0[k] && ins[k + 1] == ins0[k + 1]);
                            assert(acc[k] == acc0[k] && acc[k + 1] == acc0[k + 1]);
                            assert(results@[k] == res0[k]);
                        }
                    }
                }
                break;
            },
            Some(n) => {
                proof {
                    outs = outs.push(n);
                    assert forall|k: int| 0 <= k < passes implies #[trigger] pass_holds(
                        *keymaps,
                        t,
                        o,
                        g,
                        page_count,
                        entry,
                        highlight_color@,
                        highlights_empty,
                        s,
                        ins,
                        outs,
                        results@,
                        acc,
                        outs.len() as int,
                        k,
                    ) by {
                        if k < i {
                            assert(pass_holds(*keymaps, t, o, g, page_count, entry, highlight_color@, highlights_empty, s0, ins0, outs0, res0, acc0, outs0.len() as int, k));
                            assert(none_kept(results@, k) == none_kept(res0, k)) by {
                                assert forall|j: int| 0 <= j < k implies results@[j] == res0[j] by {}
                            }
                            assert(s[k] == s0[k] && s[k + 1] == s0[k + 1]);
                            assert(ins[k] == ins0[k] && ins[k + 1] == ins0[k + 1]);
                            assert(acc[k] == acc0[k] && acc[k + 1] == acc0[k + 1]);
                            assert(results@[k] == res0[k]);
                            assert(outs[k] == outs0[k] && outs[k + 1] == outs0[k + 1]);
                        }
                    }
                }
                current = n;
            },
        }
    }
    effects.pending_input = input.has_pending_sequence();
    proof {
        assert(run_holds(*keymaps, t, o, g, page_count, entry, highlight_color@, highlights_empty, outcome, s, ins, outs, results@, acc, passes as int));
        assert(dispatched(*keymaps, t, o, g, page_count, entry, highlight_color@, highlights_empty, outcome, *old(state), old(input)@, *state, input@, effects, results@));
    }
    (effects, results)
}


/// Scrolling, paging and zooming repeat as often as their count says (once
/// without a count or for a count of zero): the downward, rightward,
/// forward and zooming-in commands ask for that many steps, and their
/// counterparts for its negation; `{n}gg` and `{n}G` go to page `n`
/// (counted from one), `gg` to the first page and `G` to the last. None of
/// them touches the mode or selection, and with no document open they ask
/// for nothing at all.
pub proof fn lemma_view_commands(
    s: SelectionState,
    t: Seq<Seq<Seq<Cell>>>,
    o: Seq<Seq<ContentObject>>,
    g: Seq<Seq<(usize, usize)>>,
    command: Command,
    count: Option<u32>,
    page_count: Option<usize>,
    entry: Option<Caret>,
    color: Seq<char>,
    highlights_empty: bool,
    after: SelectionState,
    r: CommandResult,
)
    requires
        executed(s, t, o, g, command, count, page_count, entry, color, highlights_empty, after, r),
    ensures
        ({
            let k: int = match count {
                Some(c) => if c >= 1 {
                    c as int
                } else {
                    1
                },
                None => 1,
            };
            let page: int = match count {
                Some(c) => if c >= 1 {
                    c - 1
                } else {
                    0
                },
                None => -1,
            };
            match page_count {
                None => is_view_command(command) ==> after == s && r == only(no_effects()),
                Some(pc) => match command {
                    Command::ScrollDown => after == s && r.action == ShellAction::ScrollSteps {
                        dx: 0,
                        dy: k as i64,
                    },
                    Command::ScrollUp => after == s && r.action == ShellAction::ScrollSteps {
                        dx: 0,
                        dy: -k as i64,
                    },
                    Command::ScrollRight => after == s && r.action == ShellAction::ScrollSteps {
                        dx: k as i64,
                        dy: 0,
                    },
                    Command::ScrollLeft => after == s && r.action == ShellAction::ScrollSteps {
                        dx: -k as i64,
                        dy: 0,
                    },
                    Command::ScrollHalfPageDown => after == s && r.action
                        == ShellAction::ScrollHalfPages(k as i64),
                    Command::ScrollHalfPageUp => after == s && r.action
                        == ShellAction::ScrollHalfPages(-k as i64),
                    Command::ScrollPageDown => after == s && r.action == ShellAction::ScrollPages(
                        k as i64,
                    ),
                    Command::ScrollPageUp => after == s && r.action == ShellAction::ScrollPages(
                        -k as i64,
                    ),
                    Command::NextPage => after == s && r.action == ShellAction::NextPages(
                        k as usize,
                    ),
                    Command::PrevPage => after == s && r.action == ShellAction::PrevPages(
                        k as usize,
                    ),
                    Command::ZoomIn => after == s && r.action == ShellAction::ZoomSteps(k as i64),
                    Command::ZoomOut => after == s && r.action == ShellAction::ZoomSteps(
                        -k as i64,
                    ),
                    Command::GotoFirstPage => after == s && r.action == ShellAction::GotoPage(
                        if page >= 0 {
                            page as usize
                        } else {
                            0
                        },
                    ),
                    Command::GotoLastPage => after == s && r.action == ShellAction::GotoPage(
                        if page >= 0 {
                            page as usize
                        } else if pc >= 1 {
                            (pc - 1) as usize
                        } else {
                            0
                        },
                    ),
                    Command::FitWidth => after == s && r.action == ShellAction::FitWidth,
                    Command::ZoomReset => after == s && r.action == ShellAction::ZoomReset,
                    _ => true,
                },
            }
        }),
{
}

/// Quitting quits at once when no highlight would be lost and otherwise asks
/// first (with a redraw for the question), never both; from any mode but
/// highlight mode it leaves the mode and selection alone and keeps nothing.
/// Opening a file asks for one and redraws, and cancelling only redraws;
/// neither touches the mode or selection.
pub proof fn lemma_quit_open_cancel(
    s: SelectionState,
    t: Seq<Seq<Seq<Cell>>>,
    o: Seq<Seq<ContentObject>>,
    g: Seq<Seq<(usize, usize)>>,
    command: Command,
    count: Option<u32>,
    page_count: Option<usize>,
    entry: Option<Caret>,
    color: Seq<char>,
    highlights_empty: bool,
    after: SelectionState,
    r: CommandResult,
)
    requires
        executed(s, t, o, g, command, count, page_count, entry, color, highlights_empty, after, r),
    ensures
        command == Command::Quit ==> {
            &&& r.effects.quit == highlights_empty
            &&& r.effects.confirm_quit == !highlights_empty
            &&& !highlights_empty ==> r.effects.redraw
            &&& !r.effects.open_file_dialog
            &&& r.action == ShellAction::Nothing
            &&& s.mode != Mode::Highlight ==> after == s && r.kept is None
        },
        command == Command::OpenFile ==> after == s && r.effects.open_file_dialog && r.effects.redraw
            && !r.effects.quit && !r.effects.confirm_quit && r.action == ShellAction::Nothing,
        command == Command::Cancel ==> after == s && r.effects == (Effects {
            redraw: true,
            ..no_effects()
        }) && r.action == ShellAction::Nothing,
{
}
} // verus!
