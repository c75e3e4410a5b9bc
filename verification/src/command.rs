//! The command set.
//!
//! Every user-visible action is a [`Command`]. Keybindings map key sequences
//! to command *names*; the UI never calls behaviour directly. This
//! indirection is what lets a command palette, text objects and user-defined
//! bindings be added without touching event handlers.

use vstd::prelude::*;
use vstd::string::StringExecFns;

use crate::text::{debug_quote, debug_quoted, owned, str_eq};

verus! {

#[derive(Debug, Clone, Copy, PartialEq, Eq, Hash, Structural)]
pub enum Command {
    // Scrolling.
    ScrollDown,
    ScrollUp,
    ScrollLeft,
    ScrollRight,
    ScrollHalfPageDown,
    ScrollHalfPageUp,
    ScrollPageDown,
    ScrollPageUp,
    // Page navigation.
    NextPage,
    PrevPage,
    /// With a count, jumps to that page; otherwise the first page.
    GotoFirstPage,
    /// With a count, jumps to that page; otherwise the last page.
    GotoLastPage,
    // Zoom.
    ZoomIn,
    ZoomOut,
    FitWidth,
    ZoomReset,
    /// Scroll so the current highlight is centered in the viewport (Vim `zz`).
    CenterView,
    // Focus mode (one highlighted position at the active scope).
    //
    // Entering is also how the scope is changed: `cw` from normal mode enters
    // focus word-granular, and `cw` while already focused re-reads the current
    // position as a word without moving it.
    /// Enter focus mode keeping the current scope — char from normal mode,
    /// which resets it, and the live scope from visual mode.
    FocusEnter,
    /// Focus the nearest content character by character.
    FocusEnterChar,
    /// Focus the nearest content word by word.
    FocusEnterWord,
    /// Focus the nearest content line by line.
    FocusEnterLine,
    /// Focus the nearest content sentence by sentence.
    FocusEnterSentence,
    /// Focus the nearest content paragraph by paragraph.
    FocusEnterParagraph,
    /// Leave focus mode, returning to scrolling (the position is remembered).
    FocusExit,
    /// Move one unit of the active scope leftwards.
    FocusLeft,
    /// Move one unit of the active scope rightwards.
    FocusRight,
    /// Move up (line-wise for char/word scope, else the previous unit).
    FocusUp,
    /// Move down (line-wise for char/word scope, else the next unit).
    FocusDown,
    /// Move to the start of the next word, whatever the scope.
    FocusNextWord,
    /// Move to the start of the previous word, whatever the scope.
    FocusPrevWord,
    /// Move to the start of the next line, whatever the scope.
    FocusNextLine,
    /// Move to the start of the next sentence, whatever the scope.
    FocusNextSentence,
    /// Move to the start of the next paragraph, whatever the scope.
    FocusNextParagraph,
    // Visual mode (a two-ended selection over content).
    /// Enter visual mode, inheriting the current focus mode's granularity.
    VisualEnter,
    /// Enter visual mode selecting character by character.
    VisualEnterChar,
    /// Enter visual mode selecting word by word.
    VisualEnterWord,
    /// Enter visual mode selecting line by line.
    VisualEnterLine,
    /// Enter visual mode selecting sentence by sentence.
    VisualEnterSentence,
    /// Enter visual mode selecting paragraph by paragraph.
    VisualEnterParagraph,
    /// Leave visual mode, returning to the mode it was entered from.
    VisualExit,
    /// Grow or shrink the selection leftwards by one unit of the active scope.
    VisualLeft,
    /// Grow or shrink the selection rightwards by one unit of the active scope.
    VisualRight,
    /// Move the active end up (line-wise for char/word scope, else previous unit).
    VisualUp,
    /// Move the active end down (line-wise for char/word scope, else next unit).
    VisualDown,
    /// Move the active end to the start of the next word, whatever the scope.
    VisualNextWord,
    /// Move the active end to the start of the previous word, whatever the scope.
    VisualPrevWord,
    /// Move the active end to the start of the next line, whatever the scope.
    VisualNextLine,
    /// Move the active end to the start of the next sentence, whatever the scope.
    VisualNextSentence,
    /// Move the active end to the start of the next paragraph, whatever the scope.
    VisualNextParagraph,
    /// Make the other end of the selection the active one.
    VisualSwapEnds,
    /// Set the active end's granularity to characters.
    VisualScopeChar,
    /// Set the active end's granularity to words.
    VisualScopeWord,
    /// Set the active end's granularity to lines.
    VisualScopeLine,
    /// Set the active end's granularity to sentences.
    VisualScopeSentence,
    /// Set the active end's granularity to paragraphs.
    VisualScopeParagraph,
    /// Switch to the other end and set its granularity to characters.
    VisualOtherChar,
    /// Switch to the other end and set its granularity to words.
    VisualOtherWord,
    /// Switch to the other end and set its granularity to lines.
    VisualOtherLine,
    /// Switch to the other end and set its granularity to sentences.
    VisualOtherSentence,
    /// Switch to the other end and set its granularity to paragraphs.
    VisualOtherParagraph,
    // Highlight mode (a selection on its way to becoming a highlight).
    //
    // There is no `highlight_left` and there never will be: reshaping a pending
    // highlight *is* reshaping a selection, so highlight mode binds the
    // `visual_*` motions rather than duplicating them.
    /// Turn the focus highlight or selection into a pending highlight.
    HighlightEnter,
    /// Store the pending highlight and return to focus mode on the moving end.
    HighlightCommit,
    /// Throw the pending highlight away, restoring the mode and selection that
    /// were in effect when it was started.
    HighlightDiscard,
    // Keybinding-help overlay. These navigation commands are only reachable
    // through the overlay's isolated keymap.
    /// Show or hide the modal keybinding-help overlay.
    ToggleKeybindingsOverlay,
    /// Scroll the keybinding-help overlay down by one row.
    HelpScrollDown,
    /// Scroll the keybinding-help overlay up by one row.
    HelpScrollUp,
    /// Scroll the keybinding-help overlay down by half a viewport.
    HelpHalfPageDown,
    /// Scroll the keybinding-help overlay up by half a viewport.
    HelpHalfPageUp,
    /// Scroll the keybinding-help overlay down by one viewport.
    HelpPageDown,
    /// Scroll the keybinding-help overlay up by one viewport.
    HelpPageUp,
    /// Scroll the keybinding-help overlay to its first row.
    HelpTop,
    /// Scroll the keybinding-help overlay to its last row.
    HelpBottom,
    // Application.
    /// Show or hide the highlights sidebar, moving keyboard focus with it.
    ToggleHighlightsSidebar,
    /// Show or hide the annotations sidebar, moving keyboard focus with it.
    ToggleAnnotationsSidebar,
    /// Capture the current focus or selection as a pending Markdown annotation
    /// and ask the shell to open the annotation editor.
    CreateAnnotation,
    OpenFile,
    /// Overwrite the open PDF with the highlights embedded in it.
    SaveDocument,
    Quit,
    /// Clears pending input. Reserved to also dismiss UI state later.
    Cancel,
}

/// The number of commands.
pub const COMMAND_COUNT: usize = 79;

/// A command name that names no command.
#[derive(Debug, Clone, PartialEq, Eq)]
pub struct UnknownCommand {
    pub name: String,
}

impl UnknownCommand {
    /// The user-facing message: `unknown command "<name>"`.
    pub fn message(&self) -> (m: String)
        ensures
            m@ == "unknown command "@ + debug_quoted(self.name@),
    {
        let mut m = owned("unknown command ");
        let q = debug_quote(self.name.as_str());
        m.append(q.as_str());
        m
    }
}

/// The canonical name of a command, as written in keybindings.
pub open spec fn command_name(c: Command) -> Seq<char> {
    match c {

        Command::ScrollDown => "scroll_down"@,
        Command::ScrollUp => "scroll_up"@,
        Command::ScrollLeft => "scroll_left"@,
        Command::ScrollRight => "scroll_right"@,
        Command::ScrollHalfPageDown => "scroll_half_page_down"@,
        Command::ScrollHalfPageUp => "scroll_half_page_up"@,
        Command::ScrollPageDown => "scroll_page_down"@,
        Command::ScrollPageUp => "scroll_page_up"@,
        Command::NextPage => "next_page"@,
        Command::PrevPage => "prev_page"@,
        Command::GotoFirstPage => "goto_first_page"@,
        Command::GotoLastPage => "goto_last_page"@,
        Command::ZoomIn => "zoom_in"@,
        Command::ZoomOut => "zoom_out"@,
        Command::FitWidth => "fit_width"@,
        Command::ZoomReset => "zoom_reset"@,
        Command::CenterView => "center_view"@,
        Command::FocusEnter => "focus_enter"@,
        Command::FocusEnterChar => "focus_enter_char"@,
        Command::FocusEnterWord => "focus_enter_word"@,
        Command::FocusEnterLine => "focus_enter_line"@,
        Command::FocusEnterSentence => "focus_enter_sentence"@,
        Command::FocusEnterParagraph => "focus_enter_paragraph"@,
        Command::FocusExit => "focus_exit"@,
        Command::FocusLeft => "focus_left"@,
        Command::FocusRight => "focus_right"@,
        Command::FocusUp => "focus_up"@,
        Command::FocusDown => "focus_down"@,
        Command::FocusNextWord => "focus_next_word"@,
        Command::FocusPrevWord => "focus_prev_word"@,
        Command::FocusNextLine => "focus_next_line"@,
        Command::FocusNextSentence => "focus_next_sentence"@,
        Command::FocusNextParagraph => "focus_next_paragraph"@,
        Command::VisualEnter => "visual_enter"@,
        Command::VisualEnterChar => "visual_enter_char"@,
        Command::VisualEnterWord => "visual_enter_word"@,
        Command::VisualEnterLine => "visual_enter_line"@,
        Command::VisualEnterSentence => "visual_enter_sentence"@,
        Command::VisualEnterParagraph => "visual_enter_paragraph"@,
        Command::VisualExit => "visual_exit"@,
        Command::VisualLeft => "visual_left"@,
        Command::VisualRight => "visual_right"@,
        Command::VisualUp => "visual_up"@,
        Command::VisualDown => "visual_down"@,
        Command::VisualNextWord => "visual_next_word"@,
        Command::VisualPrevWord => "visual_prev_word"@,
        Command::VisualNextLine => "visual_next_line"@,
        Command::VisualNextSentence => "visual_next_sentence"@,
        Command::VisualNextParagraph => "visual_next_paragraph"@,
        Command::VisualSwapEnds => "visual_swap_ends"@,
        Command::VisualScopeChar => "visual_scope_char"@,
        Command::VisualScopeWord => "visual_scope_word"@,
        Command::VisualScopeLine => "visual_scope_line"@,
        Command::VisualScopeSentence => "visual_scope_sentence"@,
        Command::VisualScopeParagraph => "visual_scope_paragraph"@,
        Command::VisualOtherChar => "visual_other_char"@,
        Command::VisualOtherWord => "visual_other_word"@,
        Command::VisualOtherLine => "visual_other_line"@,
        Command::VisualOtherSentence => "visual_other_sentence"@,
        Command::VisualOtherParagraph => "visual_other_paragraph"@,
        Command::HighlightEnter => "highlight_enter"@,
        Command::HighlightCommit => "highlight_commit"@,
        Command::HighlightDiscard => "highlight_discard"@,
        Command::ToggleKeybindingsOverlay => "toggle_keybindings_overlay"@,
        Command::HelpScrollDown => "help_scroll_down"@,
        Command::HelpScrollUp => "help_scroll_up"@,
        Command::HelpHalfPageDown => "help_half_page_down"@,
        Command::HelpHalfPageUp => "help_half_page_up"@,
        Command::HelpPageDown => "help_page_down"@,
        Command::HelpPageUp => "help_page_up"@,
        Command::HelpTop => "help_top"@,
        Command::HelpBottom => "help_bottom"@,
        Command::ToggleHighlightsSidebar => "toggle_highlights_sidebar"@,
        Command::ToggleAnnotationsSidebar => "toggle_annotations_sidebar"@,
        Command::CreateAnnotation => "create_annotation"@,
        Command::OpenFile => "open_file"@,
        Command::SaveDocument => "save_document"@,
        Command::Quit => "quit"@,
        Command::Cancel => "cancel"@,
    }
}

/// The concise user-facing label of a command.
pub open spec fn command_description(c: Command) -> Seq<char> {
    match c {

        Command::ScrollDown => "Scroll down"@,
        Command::ScrollUp => "Scroll up"@,
        Command::ScrollLeft => "Scroll left"@,
        Command::ScrollRight => "Scroll right"@,
        Command::ScrollHalfPageDown => "Scroll half a page down"@,
        Command::ScrollHalfPageUp => "Scroll half a page up"@,
        Command::ScrollPageDown => "Scroll one page down"@,
        Command::ScrollPageUp => "Scroll one page up"@,
        Command::NextPage => "Go to the next page"@,
        Command::PrevPage => "Go to the previous page"@,
        Command::GotoFirstPage => "Go to the first page"@,
        Command::GotoLastPage => "Go to the last page"@,
        Command::ZoomIn => "Zoom in"@,
        Command::ZoomOut => "Zoom out"@,
        Command::FitWidth => "Fit page width"@,
        Command::ZoomReset => "Reset zoom"@,
        Command::CenterView => "Center the current focus"@,
        Command::FocusEnter => "Enter focus mode"@,
        Command::FocusEnterChar => "Focus by character"@,
        Command::FocusEnterWord => "Focus by word"@,
        Command::FocusEnterLine => "Focus by line"@,
        Command::FocusEnterSentence => "Focus by sentence"@,
        Command::FocusEnterParagraph => "Focus by paragraph"@,
        Command::FocusExit => "Leave focus mode"@,
        Command::FocusLeft => "Move focus left"@,
        Command::FocusRight => "Move focus right"@,
        Command::FocusUp => "Move focus up"@,
        Command::FocusDown => "Move focus down"@,
        Command::FocusNextWord => "Move focus to the next word"@,
        Command::FocusPrevWord => "Move focus to the previous word"@,
        Command::FocusNextLine => "Move focus to the next line"@,
        Command::FocusNextSentence => "Move focus to the next sentence"@,
        Command::FocusNextParagraph => "Move focus to the next paragraph"@,
        Command::VisualEnter => "Enter visual mode"@,
        Command::VisualEnterChar => "Select by character"@,
        Command::VisualEnterWord => "Select by word"@,
        Command::VisualEnterLine => "Select by line"@,
        Command::VisualEnterSentence => "Select by sentence"@,
        Command::VisualEnterParagraph => "Select by paragraph"@,
        Command::VisualExit => "Leave visual mode"@,
        Command::VisualLeft => "Move the active selection end left"@,
        Command::VisualRight => "Move the active selection end right"@,
        Command::VisualUp => "Move the active selection end up"@,
        Command::VisualDown => "Move the active selection end down"@,
        Command::VisualNextWord => "Move the active end to the next word"@,
        Command::VisualPrevWord => "Move the active end to the previous word"@,
        Command::VisualNextLine => "Move the active end to the next line"@,
        Command::VisualNextSentence => "Move the active end to the next sentence"@,
        Command::VisualNextParagraph => "Move the active end to the next paragraph"@,
        Command::VisualSwapEnds => "Switch the active selection end"@,
        Command::VisualScopeChar => "Set the active end to character scope"@,
        Command::VisualScopeWord => "Set the active end to word scope"@,
        Command::VisualScopeLine => "Set the active end to line scope"@,
        Command::VisualScopeSentence => "Set the active end to sentence scope"@,
        Command::VisualScopeParagraph => "Set the active end to paragraph scope"@,
        Command::VisualOtherChar => "Switch ends with character scope"@,
        Command::VisualOtherWord => "Switch ends with word scope"@,
        Command::VisualOtherLine => "Switch ends with line scope"@,
        Command::VisualOtherSentence => "Switch ends with sentence scope"@,
        Command::VisualOtherParagraph => "Switch ends with paragraph scope"@,
        Command::HighlightEnter => "Start a highlight"@,
        Command::HighlightCommit => "Keep the pending highlight"@,
        Command::HighlightDiscard => "Discard the pending highlight"@,
        Command::ToggleKeybindingsOverlay => "Show or hide keybinding help"@,
        Command::HelpScrollDown => "Scroll help down"@,
        Command::HelpScrollUp => "Scroll help up"@,
        Command::HelpHalfPageDown => "Scroll help half a page down"@,
        Command::HelpHalfPageUp => "Scroll help half a page up"@,
        Command::HelpPageDown => "Scroll help one page down"@,
        Command::HelpPageUp => "Scroll help one page up"@,
        Command::HelpTop => "Go to the start of help"@,
        Command::HelpBottom => "Go to the end of help"@,
        Command::ToggleHighlightsSidebar => "Toggle the Highlights sidebar"@,
        Command::ToggleAnnotationsSidebar => "Toggle the Annotations sidebar"@,
        Command::CreateAnnotation => "Create a Markdown annotation"@,
        Command::OpenFile => "Open a PDF"@,
        Command::SaveDocument => "Save highlights into the PDF"@,
        Command::Quit => "Quit syodep"@,
        Command::Cancel => "Cancel the current action"@,
    }
}

/// The commands in their canonical table order.
pub open spec fn spec_command_at(i: int) -> Command
    recommends
        0 <= i < COMMAND_COUNT,
{

    if i == 0 {
        Command::ScrollDown
    } else if i == 1 {
        Command::ScrollUp
    } else if i == 2 {
        Command::ScrollLeft
    } else if i == 3 {
        Command::ScrollRight
    } else if i == 4 {
        Command::ScrollHalfPageDown
    } else if i == 5 {
        Command::ScrollHalfPageUp
    } else if i == 6 {
        Command::ScrollPageDown
    } else if i == 7 {
        Command::ScrollPageUp
    } else if i == 8 {
        Command::NextPage
    } else if i == 9 {
        Command::PrevPage
    } else if i == 10 {
        Command::GotoFirstPage
    } else if i == 11 {
        Command::GotoLastPage
    } else if i == 12 {
        Command::ZoomIn
    } else if i == 13 {
        Command::ZoomOut
    } else if i == 14 {
        Command::FitWidth
    } else if i == 15 {
        Command::ZoomReset
    } else if i == 16 {
        Command::CenterView
    } else if i == 17 {
        Command::FocusEnter
    } else if i == 18 {
        Command::FocusEnterChar
    } else if i == 19 {
        Command::FocusEnterWord
    } else if i == 20 {
        Command::FocusEnterLine
    } else if i == 21 {
        Command::FocusEnterSentence
    } else if i == 22 {
        Command::FocusEnterParagraph
    } else if i == 23 {
        Command::FocusExit
    } else if i == 24 {
        Command::FocusLeft
    } else if i == 25 {
        Command::FocusRight
    } else if i == 26 {
        Command::FocusUp
    } else if i == 27 {
        Command::FocusDown
    } else if i == 28 {
        Command::FocusNextWord
    } else if i == 29 {
        Command::FocusPrevWord
    } else if i == 30 {
        Command::FocusNextLine
    } else if i == 31 {
        Command::FocusNextSentence
    } else if i == 32 {
        Command::FocusNextParagraph
    } else if i == 33 {
        Command::VisualEnter
    } else if i == 34 {
        Command::VisualEnterChar
    } else if i == 35 {
        Command::VisualEnterWord
    } else if i == 36 {
        Command::VisualEnterLine
    } else if i == 37 {
        Command::VisualEnterSentence
    } else if i == 38 {
        Command::VisualEnterParagraph
    } else if i == 39 {
        Command::VisualExit
    } else if i == 40 {
        Command::VisualLeft
    } else if i == 41 {
        Command::VisualRight
    } else if i == 42 {
        Command::VisualUp
    } else if i == 43 {
        Command::VisualDown
    } else if i == 44 {
        Command::VisualNextWord
    } else if i == 45 {
        Command::VisualPrevWord
    } else if i == 46 {
        Command::VisualNextLine
    } else if i == 47 {
        Command::VisualNextSentence
    } else if i == 48 {
        Command::VisualNextParagraph
    } else if i == 49 {
        Command::VisualSwapEnds
    } else if i == 50 {
        Command::VisualScopeChar
    } else if i == 51 {
        Command::VisualScopeWord
    } else if i == 52 {
        Command::VisualScopeLine
    } else if i == 53 {
        Command::VisualScopeSentence
    } else if i == 54 {
        Command::VisualScopeParagraph
    } else if i == 55 {
        Command::VisualOtherChar
    } else if i == 56 {
        Command::VisualOtherWord
    } else if i == 57 {
        Command::VisualOtherLine
    } else if i == 58 {
        Command::VisualOtherSentence
    } else if i == 59 {
        Command::VisualOtherParagraph
    } else if i == 60 {
        Command::HighlightEnter
    } else if i == 61 {
        Command::HighlightCommit
    } else if i == 62 {
        Command::HighlightDiscard
    } else if i == 63 {
        Command::ToggleKeybindingsOverlay
    } else if i == 64 {
        Command::HelpScrollDown
    } else if i == 65 {
        Command::HelpScrollUp
    } else if i == 66 {
        Command::HelpHalfPageDown
    } else if i == 67 {
        Command::HelpHalfPageUp
    } else if i == 68 {
        Command::HelpPageDown
    } else if i == 69 {
        Command::HelpPageUp
    } else if i == 70 {
        Command::HelpTop
    } else if i == 71 {
        Command::HelpBottom
    } else if i == 72 {
        Command::ToggleHighlightsSidebar
    } else if i == 73 {
        Command::ToggleAnnotationsSidebar
    } else if i == 74 {
        Command::CreateAnnotation
    } else if i == 75 {
        Command::OpenFile
    } else if i == 76 {
        Command::SaveDocument
    } else if i == 77 {
        Command::Quit
    } else {
        Command::Cancel
    }
}

/// The position of a command in the canonical table.
pub open spec fn command_index(c: Command) -> int {
    match c {

        Command::ScrollDown => 0,
        Command::ScrollUp => 1,
        Command::ScrollLeft => 2,
        Command::ScrollRight => 3,
        Command::ScrollHalfPageDown => 4,
        Command::ScrollHalfPageUp => 5,
        Command::ScrollPageDown => 6,
        Command::ScrollPageUp => 7,
        Command::NextPage => 8,
        Command::PrevPage => 9,
        Command::GotoFirstPage => 10,
        Command::GotoLastPage => 11,
        Command::ZoomIn => 12,
        Command::ZoomOut => 13,
        Command::FitWidth => 14,
        Command::ZoomReset => 15,
        Command::CenterView => 16,
        Command::FocusEnter => 17,
        Command::FocusEnterChar => 18,
        Command::FocusEnterWord => 19,
        Command::FocusEnterLine => 20,
        Command::FocusEnterSentence => 21,
        Command::FocusEnterParagraph => 22,
        Command::FocusExit => 23,
        Command::FocusLeft => 24,
        Command::FocusRight => 25,
        Command::FocusUp => 26,
        Command::FocusDown => 27,
        Command::FocusNextWord => 28,
        Command::FocusPrevWord => 29,
        Command::FocusNextLine => 30,
        Command::FocusNextSentence => 31,
        Command::FocusNextParagraph => 32,
        Command::VisualEnter => 33,
        Command::VisualEnterChar => 34,
        Command::VisualEnterWord => 35,
        Command::VisualEnterLine => 36,
        Command::VisualEnterSentence => 37,
        Command::VisualEnterParagraph => 38,
        Command::VisualExit => 39,
        Command::VisualLeft => 40,
        Command::VisualRight => 41,
        Command::VisualUp => 42,
        Command::VisualDown => 43,
        Command::VisualNextWord => 44,
        Command::VisualPrevWord => 45,
        Command::VisualNextLine => 46,
        Command::VisualNextSentence => 47,
        Command::VisualNextParagraph => 48,
        Command::VisualSwapEnds => 49,
        Command::VisualScopeChar => 50,
        Command::VisualScopeWord => 51,
        Command::VisualScopeLine => 52,
        Command::VisualScopeSentence => 53,
        Command::VisualScopeParagraph => 54,
        Command::VisualOtherChar => 55,
        Command::VisualOtherWord => 56,
        Command::VisualOtherLine => 57,
        Command::VisualOtherSentence => 58,
        Command::VisualOtherParagraph => 59,
        Command::HighlightEnter => 60,
        Command::HighlightCommit => 61,
        Command::HighlightDiscard => 62,
        Command::ToggleKeybindingsOverlay => 63,
        Command::HelpScrollDown => 64,
        Command::HelpScrollUp => 65,
        Command::HelpHalfPageDown => 66,
        Command::HelpHalfPageUp => 67,
        Command::HelpPageDown => 68,
        Command::HelpPageUp => 69,
        Command::HelpTop => 70,
        Command::HelpBottom => 71,
        Command::ToggleHighlightsSidebar => 72,
        Command::ToggleAnnotationsSidebar => 73,
        Command::CreateAnnotation => 74,
        Command::OpenFile => 75,
        Command::SaveDocument => 76,
        Command::Quit => 77,
        Command::Cancel => 78,
    }
}

/// Every command sits in the table at its own index.
pub proof fn lemma_command_index(c: Command)
    ensures
        0 <= command_index(c) < COMMAND_COUNT,
        spec_command_at(command_index(c)) == c,
{
}

/// A fingerprint of a name: its length and three of its characters. It
/// tells every command name apart, which is how distinctness is proved.
spec fn name_fingerprint(s: Seq<char>) -> int {
    let c7: char = if s.len() > 7 {
        s[7]
    } else {
        ' '
    };
    ((s.len() * 128 + (s[0] as int)) * 128 + (c7 as int)) * 128 + (s[s.len() - 1] as int)
}

/// The command whose name has a given fingerprint.
spec fn command_of_fingerprint(f: int) -> Option<Command> {

    if f == 24965742 {
        Some(Command::ScrollDown)
    } else if f == 20773616 {
        Some(Command::ScrollUp)
    } else if f == 24966772 {
        Some(Command::ScrollLeft)
    } else if f == 27064692 {
        Some(Command::ScrollRight)
    } else if f == 45937774 {
        Some(Command::ScrollHalfPageDown)
    } else if f == 41743472 {
        Some(Command::ScrollHalfPageUp)
    } else if f == 35453038 {
        Some(Command::ScrollPageDown)
    } else if f == 31258736 {
        Some(Command::ScrollPageUp)
    } else if f == 20689893 {
        Some(Command::NextPage)
    } else if f == 20722661 {
        Some(Command::PrevPage)
    } else if f == 33159525 {
        Some(Command::GotoFirstPage)
    } else if f == 31062501 {
        Some(Command::GotoLastPage)
    } else if f == 16683118 {
        Some(Command::ZoomIn)
    } else if f == 18791028 {
        Some(Command::ZoomOut)
    } else if f == 20560488 {
        Some(Command::FitWidth)
    } else if f == 22985204 {
        Some(Command::ZoomReset)
    } else if f == 24705911 {
        Some(Command::CenterView)
    } else if f == 24754034 {
        Some(Command::FocusEnter)
    } else if f == 35239794 {
        Some(Command::FocusEnterChar)
    } else if f == 35239780 {
        Some(Command::FocusEnterWord)
    } else if f == 35239781 {
        Some(Command::FocusEnterLine)
    } else if f == 43628389 {
        Some(Command::FocusEnterSentence)
    } else if f == 45725544 {
        Some(Command::FocusEnterParagraph)
    } else if f == 22658164 {
        Some(Command::FocusExit)
    } else if f == 22655732 {
        Some(Command::FocusLeft)
    } else if f == 24753396 {
        Some(Command::FocusRight)
    } else if f == 18462832 {
        Some(Command::FocusUp)
    } else if f == 22657006 {
        Some(Command::FocusDown)
    } else if f == 33141476 {
        Some(Command::FocusNextWord)
    } else if f == 33143140 {
        Some(Command::FocusPrevWord)
    } else if f == 33141477 {
        Some(Command::FocusNextLine)
    } else if f == 41530085 {
        Some(Command::FocusNextSentence)
    } else if f == 43627240 {
        Some(Command::FocusNextParagraph)
    } else if f == 27112178 {
        Some(Command::VisualEnter)
    } else if f == 37597938 {
        Some(Command::VisualEnterChar)
    } else if f == 37597924 {
        Some(Command::VisualEnterWord)
    } else if f == 37597925 {
        Some(Command::VisualEnterLine)
    } else if f == 45986533 {
        Some(Command::VisualEnterSentence)
    } else if f == 48083688 {
        Some(Command::VisualEnterParagraph)
    } else if f == 25015028 {
        Some(Command::VisualExit)
    } else if f == 25015924 {
        Some(Command::VisualLeft)
    } else if f == 27113844 {
        Some(Command::VisualRight)
    } else if f == 20822768 {
        Some(Command::VisualUp)
    } else if f == 25014894 {
        Some(Command::VisualDown)
    } else if f == 35501924 {
        Some(Command::VisualNextWord)
    } else if f == 35502180 {
        Some(Command::VisualPrevWord)
    } else if f == 35501925 {
        Some(Command::VisualNextLine)
    } else if f == 43890533 {
        Some(Command::VisualNextSentence)
    } else if f == 45987688 {
        Some(Command::VisualNextParagraph)
    } else if f == 35502579 {
        Some(Command::VisualSwapEnds)
    } else if f == 37599730 {
        Some(Command::VisualScopeChar)
    } else if f == 37599716 {
        Some(Command::VisualScopeWord)
    } else if f == 37599717 {
        Some(Command::VisualScopeLine)
    } else if f == 45988325 {
        Some(Command::VisualScopeSentence)
    } else if f == 48085480 {
        Some(Command::VisualScopeParagraph)
    } else if f == 37599218 {
        Some(Command::VisualOtherChar)
    } else if f == 37599204 {
        Some(Command::VisualOtherWord)
    } else if f == 37599205 {
        Some(Command::VisualOtherLine)
    } else if f == 45987813 {
        Some(Command::VisualOtherSentence)
    } else if f == 48084968 {
        Some(Command::VisualOtherParagraph)
    } else if f == 33174642 {
        Some(Command::HighlightEnter)
    } else if f == 35271796 {
        Some(Command::HighlightCommit)
    } else if f == 37368932 {
        Some(Command::HighlightDiscard)
    } else if f == 56440313 {
        Some(Command::ToggleKeybindingsOverlay)
    } else if f == 35273070 {
        Some(Command::HelpScrollDown)
    } else if f == 31078768 {
        Some(Command::HelpScrollUp)
    } else if f == 41563758 {
        Some(Command::HelpHalfPageDown)
    } else if f == 37369456 {
        Some(Command::HelpHalfPageUp)
    } else if f == 31077358 {
        Some(Command::HelpPageDown)
    } else if f == 26883056 {
        Some(Command::HelpPageUp)
    } else if f == 18495600 {
        Some(Command::HelpTop)
    } else if f == 24787565 {
        Some(Command::HelpBottom)
    } else if f == 54342770 {
        Some(Command::ToggleHighlightsSidebar)
    } else if f == 56439026 {
        Some(Command::ToggleAnnotationsSidebar)
    } else if f == 37286126 {
        Some(Command::CreateAnnotation)
    } else if f == 20706917 {
        Some(Command::OpenFile)
    } else if f == 29159924 {
        Some(Command::SaveDocument)
    } else if f == 10244212 {
        Some(Command::Quit)
    } else if f == 14209132 {
        Some(Command::Cancel)
    } else {
        None
    }
}

/// The fingerprint of each command's name leads back to the command.
proof fn lemma_fingerprint(c: Command)
    ensures
        command_of_fingerprint(name_fingerprint(command_name(c))) == Some(c),
{
    match c {

        Command::ScrollDown => {
            reveal_strlit("scroll_down");
            assert(command_name(c).len() == 11);
            assert(command_name(c)[0] == 's');
            assert(command_name(c)[10] == 'n');
            assert(command_name(c)[7] == 'd');
        },
        Command::ScrollUp => {
            reveal_strlit("scroll_up");
            assert(command_name(c).len() == 9);
            assert(command_name(c)[0] == 's');
            assert(command_name(c)[8] == 'p');
            assert(command_name(c)[7] == 'u');
        },
        Command::ScrollLeft => {
            reveal_strlit("scroll_left");
            assert(command_name(c).len() == 11);
            assert(command_name(c)[0] == 's');
            assert(command_name(c)[10] == 't');
            assert(command_name(c)[7] == 'l');
        },
        Command::ScrollRight => {
            reveal_strlit("scroll_right");
            assert(command_name(c).len() == 12);
            assert(command_name(c)[0] == 's');
            assert(command_name(c)[11] == 't');
            assert(command_name(c)[7] == 'r');
        },
        Command::ScrollHalfPageDown => {
            reveal_strlit("scroll_half_page_down");
            assert(command_name(c).len() == 21);
            assert(command_name(c)[0] == 's');
            assert(command_name(c)[20] == 'n');
            assert(command_name(c)[7] == 'h');
        },
        Command::ScrollHalfPageUp => {
            reveal_strlit("scroll_half_page_up");
            assert(command_name(c).len() == 19);
            assert(command_name(c)[0] == 's');
            assert(command_name(c)[18] == 'p');
            assert(command_name(c)[7] == 'h');
        },
        Command::ScrollPageDown => {
            reveal_strlit("scroll_page_down");
            assert(command_name(c).len() == 16);
            assert(command_name(c)[0] == 's');
            assert(command_name(c)[15] == 'n');
            assert(command_name(c)[7] == 'p');
        },
        Command::ScrollPageUp => {
            reveal_strlit("scroll_page_up");
            assert(command_name(c).len() == 14);
            assert(command_name(c)[0] == 's');
            assert(command_name(c)[13] == 'p');
            assert(command_name(c)[7] == 'p');
        },
        Command::NextPage => {
            reveal_strlit("next_page");
            assert(command_name(c).len() == 9);
            assert(command_name(c)[0] == 'n');
            assert(command_name(c)[8] == 'e');
            assert(command_name(c)[7] == 'g');
        },
        Command::PrevPage => {
            reveal_strlit("prev_page");
            assert(command_name(c).len() == 9);
            assert(command_name(c)[0] == 'p');
            assert(command_name(c)[8] == 'e');
            assert(command_name(c)[7] == 'g');
        },
        Command::GotoFirstPage => {
            reveal_strlit("goto_first_page");
            assert(command_name(c).len() == 15);
            assert(command_name(c)[0] == 'g');
            assert(command_name(c)[14] == 'e');
            assert(command_name(c)[7] == 'r');
        },
        Command::GotoLastPage => {
            reveal_strlit("goto_last_page");
            assert(command_name(c).len() == 14);
            assert(command_name(c)[0] == 'g');
            assert(command_name(c)[13] == 'e');
            assert(command_name(c)[7] == 's');
        },
        Command::ZoomIn => {
            reveal_strlit("zoom_in");
            assert(command_name(c).len() == 7);
            assert(command_name(c)[0] == 'z');
            assert(command_name(c)[6] == 'n');
        },
        Command::ZoomOut => {
            reveal_strlit("zoom_out");
            assert(command_name(c).len() == 8);
            assert(command_name(c)[0] == 'z');
            assert(command_name(c)[7] == 't');
            assert(command_name(c)[7] == 't');
        },
        Command::FitWidth => {
            reveal_strlit("fit_width");
            assert(command_name(c).len() == 9);
            assert(command_name(c)[0] == 'f');
            assert(command_name(c)[8] == 'h');
            assert(command_name(c)[7] == 't');
        },
        Command::ZoomReset => {
            reveal_strlit("zoom_reset");
            assert(command_name(c).len() == 10);
            assert(command_name(c)[0] == 'z');
            assert(command_name(c)[9] == 't');
            assert(command_name(c)[7] == 's');
        },
        Command::CenterView => {
            reveal_strlit("center_view");
            assert(command_name(c).len() == 11);
            assert(command_name(c)[0] == 'c');
            assert(command_name(c)[10] == 'w');
            assert(command_name(c)[7] == 'v');
        },
        Command::FocusEnter => {
            reveal_strlit("focus_enter");
            assert(command_name(c).len() == 11);
            assert(command_name(c)[0] == 'f');
            assert(command_name(c)[10] == 'r');
            assert(command_name(c)[7] == 'n');
        },
        Command::FocusEnterChar => {
            reveal_strlit("focus_enter_char");
            assert(command_name(c).len() == 16);
            assert(command_name(c)[0] == 'f');
            assert(command_name(c)[15] == 'r');
            assert(command_name(c)[7] == 'n');
        },
        Command::FocusEnterWord => {
            reveal_strlit("focus_enter_word");
            assert(command_name(c).len() == 16);
            assert(command_name(c)[0] == 'f');
            assert(command_name(c)[15] == 'd');
            assert(command_name(c)[7] == 'n');
        },
        Command::FocusEnterLine => {
            reveal_strlit("focus_enter_line");
            assert(command_name(c).len() == 16);
            assert(command_name(c)[0] == 'f');
            assert(command_name(c)[15] == 'e');
            assert(command_name(c)[7] == 'n');
        },
        Command::FocusEnterSentence => {
            reveal_strlit("focus_enter_sentence");
            assert(command_name(c).len() == 20);
            assert(command_name(c)[0] == 'f');
            assert(command_name(c)[19] == 'e');
            assert(command_name(c)[7] == 'n');
        },
        Command::FocusEnterParagraph => {
            reveal_strlit("focus_enter_paragraph");
            assert(command_name(c).len() == 21);
            assert(command_name(c)[0] == 'f');
            assert(command_name(c)[20] == 'h');
            assert(command_name(c)[7] == 'n');
        },
        Command::FocusExit => {
            reveal_strlit("focus_exit");
            assert(command_name(c).len() == 10);
            assert(command_name(c)[0] == 'f');
            assert(command_name(c)[9] == 't');
            assert(command_name(c)[7] == 'x');
        },
        Command::FocusLeft => {
            reveal_strlit("focus_left");
            assert(command_name(c).len() == 10);
            assert(command_name(c)[0] == 'f');
            assert(command_name(c)[9] == 't');
            assert(command_name(c)[7] == 'e');
        },
        Command::FocusRight => {
            reveal_strlit("focus_right");
            assert(command_name(c).len() == 11);
            assert(command_name(c)[0] == 'f');
            assert(command_name(c)[10] == 't');
            assert(command_name(c)[7] == 'i');
        },
        Command::FocusUp => {
            reveal_strlit("focus_up");
            assert(command_name(c).len() == 8);
            assert(command_name(c)[0] == 'f');
            assert(command_name(c)[7] == 'p');
            assert(command_name(c)[7] == 'p');
        },
        Command::FocusDown => {
            reveal_strlit("focus_down");
            assert(command_name(c).len() == 10);
            assert(command_name(c)[0] == 'f');
            assert(command_name(c)[9] == 'n');
            assert(command_name(c)[7] == 'o');
        },
        Command::FocusNextWord => {
            reveal_strlit("focus_next_word");
            assert(command_name(c).len() == 15);
            assert(command_name(c)[0] == 'f');
            assert(command_name(c)[14] == 'd');
            assert(command_name(c)[7] == 'e');
        },
        Command::FocusPrevWord => {
            reveal_strlit("focus_prev_word");
            assert(command_name(c).len() == 15);
            assert(command_name(c)[0] == 'f');
            assert(command_name(c)[14] == 'd');
            assert(command_name(c)[7] == 'r');
        },
        Command::FocusNextLine => {
            reveal_strlit("focus_next_line");
            assert(command_name(c).len() == 15);
            assert(command_name(c)[0] == 'f');
            assert(command_name(c)[14] == 'e');
            assert(command_name(c)[7] == 'e');
        },
        Command::FocusNextSentence => {
            reveal_strlit("focus_next_sentence");
            assert(command_name(c).len() == 19);
            assert(command_name(c)[0] == 'f');
            assert(command_name(c)[18] == 'e');
            assert(command_name(c)[7] == 'e');
        },
        Command::FocusNextParagraph => {
            reveal_strlit("focus_next_paragraph");
            assert(command_name(c).len() == 20);
            assert(command_name(c)[0] == 'f');
            assert(command_name(c)[19] == 'h');
            assert(command_name(c)[7] == 'e');
        },
        Command::VisualEnter => {
            reveal_strlit("visual_enter");
            assert(command_name(c).len() == 12);
            assert(command_name(c)[0] == 'v');
            assert(command_name(c)[11] == 'r');
            assert(command_name(c)[7] == 'e');
        },
        Command::VisualEnterChar => {
            reveal_strlit("visual_enter_char");
            assert(command_name(c).len() == 17);
            assert(command_name(c)[0] == 'v');
            assert(command_name(c)[16] == 'r');
            assert(command_name(c)[7] == 'e');
        },
        Command::VisualEnterWord => {
            reveal_strlit("visual_enter_word");
            assert(command_name(c).len() == 17);
            assert(command_name(c)[0] == 'v');
            assert(command_name(c)[16] == 'd');
            assert(command_name(c)[7] == 'e');
        },
        Command::VisualEnterLine => {
            reveal_strlit("visual_enter_line");
            assert(command_name(c).len() == 17);
            assert(command_name(c)[0] == 'v');
            assert(command_name(c)[16] == 'e');
            assert(command_name(c)[7] == 'e');
        },
        Command::VisualEnterSentence => {
            reveal_strlit("visual_enter_sentence");
            assert(command_name(c).len() == 21);
            assert(command_name(c)[0] == 'v');
            assert(command_name(c)[20] == 'e');
            assert(command_name(c)[7] == 'e');
        },
        Command::VisualEnterParagraph => {
            reveal_strlit("visual_enter_paragraph");
            assert(command_name(c).len() == 22);
            assert(command_name(c)[0] == 'v');
            assert(command_name(c)[21] == 'h');
            assert(command_name(c)[7] == 'e');
        },
        Command::VisualExit => {
            reveal_strlit("visual_exit");
            assert(command_name(c).len() == 11);
            assert(command_name(c)[0] == 'v');
            assert(command_name(c)[10] == 't');
            assert(command_name(c)[7] == 'e');
        },
        Command::VisualLeft => {
            reveal_strlit("visual_left");
            assert(command_name(c).len() == 11);
            assert(command_name(c)[0] == 'v');
            assert(command_name(c)[10] == 't');
            assert(command_name(c)[7] == 'l');
        },
        Command::VisualRight => {
            reveal_strlit("visual_right");
            assert(command_name(c).len() == 12);
            assert(command_name(c)[0] == 'v');
            assert(command_name(c)[11] == 't');
            assert(command_name(c)[7] == 'r');
        },
        Command::VisualUp => {
            reveal_strlit("visual_up");
            assert(command_name(c).len() == 9);
            assert(command_name(c)[0] == 'v');
            assert(command_name(c)[8] == 'p');
            assert(command_name(c)[7] == 'u');
        },
        Command::VisualDown => {
            reveal_strlit("visual_down");
            assert(command_name(c).len() == 11);
            assert(command_name(c)[0] == 'v');
            assert(command_name(c)[10] == 'n');
            assert(command_name(c)[7] == 'd');
        },
        Command::VisualNextWord => {
            reveal_strlit("visual_next_word");
            assert(command_name(c).len() == 16);
            assert(command_name(c)[0] == 'v');
            assert(command_name(c)[15] == 'd');
            assert(command_name(c)[7] == 'n');
        },
        Command::VisualPrevWord => {
            reveal_strlit("visual_prev_word");
            assert(command_name(c).len() == 16);
            assert(command_name(c)[0] == 'v');
            assert(command_name(c)[15] == 'd');
            assert(command_name(c)[7] == 'p');
        },
        Command::VisualNextLine => {
            reveal_strlit("visual_next_line");
            assert(command_name(c).len() == 16);
            assert(command_name(c)[0] == 'v');
            assert(command_name(c)[15] == 'e');
            assert(command_name(c)[7] == 'n');
        },
        Command::VisualNextSentence => {
            reveal_strlit("visual_next_sentence");
            assert(command_name(c).len() == 20);
            assert(command_name(c)[0] == 'v');
            assert(command_name(c)[19] == 'e');
            assert(command_name(c)[7] == 'n');
        },
        Command::VisualNextParagraph => {
            reveal_strlit("visual_next_paragraph");
            assert(command_name(c).len() == 21);
            assert(command_name(c)[0] == 'v');
            assert(command_name(c)[20] == 'h');
            assert(command_name(c)[7] == 'n');
        },
        Command::VisualSwapEnds => {
            reveal_strlit("visual_swap_ends");
            assert(command_name(c).len() == 16);
            assert(command_name(c)[0] == 'v');
            assert(command_name(c)[15] == 's');
            assert(command_name(c)[7] == 's');
        },
        Command::VisualScopeChar => {
            reveal_strlit("visual_scope_char");
            assert(command_name(c).len() == 17);
            assert(command_name(c)[0] == 'v');
            assert(command_name(c)[16] == 'r');
            assert(command_name(c)[7] == 's');
        },
        Command::VisualScopeWord => {
            reveal_strlit("visual_scope_word");
            assert(command_name(c).len() == 17);
            assert(command_name(c)[0] == 'v');
            assert(command_name(c)[16] == 'd');
            assert(command_name(c)[7] == 's');
        },
        Command::VisualScopeLine => {
            reveal_strlit("visual_scope_line");
            assert(command_name(c).len() == 17);
            assert(command_name(c)[0] == 'v');
            assert(command_name(c)[16] == 'e');
            assert(command_name(c)[7] == 's');
        },
        Command::VisualScopeSentence => {
            reveal_strlit("visual_scope_sentence");
            assert(command_name(c).len() == 21);
            assert(command_name(c)[0] == 'v');
            assert(command_name(c)[20] == 'e');
            assert(command_name(c)[7] == 's');
        },
        Command::VisualScopeParagraph => {
            reveal_strlit("visual_scope_paragraph");
            assert(command_name(c).len() == 22);
            assert(command_name(c)[0] == 'v');
            assert(command_name(c)[21] == 'h');
            assert(command_name(c)[7] == 's');
        },
        Command::VisualOtherChar => {
            reveal_strlit("visual_other_char");
            assert(command_name(c).len() == 17);
            assert(command_name(c)[0] == 'v');
            assert(command_name(c)[16] == 'r');
            assert(command_name(c)[7] == 'o');
        },
        Command::VisualOtherWord => {
            reveal_strlit("visual_other_word");
            assert(command_name(c).len() == 17);
            assert(command_name(c)[0] == 'v');
            assert(command_name(c)[16] == 'd');
            assert(command_name(c)[7] == 'o');
        },
        Command::VisualOtherLine => {
            reveal_strlit("visual_other_line");
            assert(command_name(c).len() == 17);
            assert(command_name(c)[0] == 'v');
            assert(command_name(c)[16] == 'e');
            assert(command_name(c)[7] == 'o');
        },
        Command::VisualOtherSentence => {
            reveal_strlit("visual_other_sentence");
            assert(command_name(c).len() == 21);
            assert(command_name(c)[0] == 'v');
            assert(command_name(c)[20] == 'e');
            assert(command_name(c)[7] == 'o');
        },
        Command::VisualOtherParagraph => {
            reveal_strlit("visual_other_paragraph");
            assert(command_name(c).len() == 22);
            assert(command_name(c)[0] == 'v');
            assert(command_name(c)[21] == 'h');
            assert(command_name(c)[7] == 'o');
        },
        Command::HighlightEnter => {
            reveal_strlit("highlight_enter");
            assert(command_name(c).len() == 15);
            assert(command_name(c)[0] == 'h');
            assert(command_name(c)[14] == 'r');
            assert(command_name(c)[7] == 'h');
        },
        Command::HighlightCommit => {
            reveal_strlit("highlight_commit");
            assert(command_name(c).len() == 16);
            assert(command_name(c)[0] == 'h');
            assert(command_name(c)[15] == 't');
            assert(command_name(c)[7] == 'h');
        },
        Command::HighlightDiscard => {
            reveal_strlit("highlight_discard");
            assert(command_name(c).len() == 17);
            assert(command_name(c)[0] == 'h');
            assert(command_name(c)[16] == 'd');
            assert(command_name(c)[7] == 'h');
        },
        Command::ToggleKeybindingsOverlay => {
            reveal_strlit("toggle_keybindings_overlay");
            assert(command_name(c).len() == 26);
            assert(command_name(c)[0] == 't');
            assert(command_name(c)[25] == 'y');
            assert(command_name(c)[7] == 'k');
        },
        Command::HelpScrollDown => {
            reveal_strlit("help_scroll_down");
            assert(command_name(c).len() == 16);
            assert(command_name(c)[0] == 'h');
            assert(command_name(c)[15] == 'n');
            assert(command_name(c)[7] == 'r');
        },
        Command::HelpScrollUp => {
            reveal_strlit("help_scroll_up");
            assert(command_name(c).len() == 14);
            assert(command_name(c)[0] == 'h');
            assert(command_name(c)[13] == 'p');
            assert(command_name(c)[7] == 'r');
        },
        Command::HelpHalfPageDown => {
            reveal_strlit("help_half_page_down");
            assert(command_name(c).len() == 19);
            assert(command_name(c)[0] == 'h');
            assert(command_name(c)[18] == 'n');
            assert(command_name(c)[7] == 'l');
        },
        Command::HelpHalfPageUp => {
            reveal_strlit("help_half_page_up");
            assert(command_name(c).len() == 17);
            assert(command_name(c)[0] == 'h');
            assert(command_name(c)[16] == 'p');
            assert(command_name(c)[7] == 'l');
        },
        Command::HelpPageDown => {
            reveal_strlit("help_page_down");
            assert(command_name(c).len() == 14);
            assert(command_name(c)[0] == 'h');
            assert(command_name(c)[13] == 'n');
            assert(command_name(c)[7] == 'g');
        },
        Command::HelpPageUp => {
            reveal_strlit("help_page_up");
            assert(command_name(c).len() == 12);
            assert(command_name(c)[0] == 'h');
            assert(command_name(c)[11] == 'p');
            assert(command_name(c)[7] == 'g');
        },
        Command::HelpTop => {
            reveal_strlit("help_top");
            assert(command_name(c).len() == 8);
            assert(command_name(c)[0] == 'h');
            assert(command_name(c)[7] == 'p');
            assert(command_name(c)[7] == 'p');
        },
        Command::HelpBottom => {
            reveal_strlit("help_bottom");
            assert(command_name(c).len() == 11);
            assert(command_name(c)[0] == 'h');
            assert(command_name(c)[10] == 'm');
            assert(command_name(c)[7] == 't');
        },
        Command::ToggleHighlightsSidebar => {
            reveal_strlit("toggle_highlights_sidebar");
            assert(command_name(c).len() == 25);
            assert(command_name(c)[0] == 't');
            assert(command_name(c)[24] == 'r');
            assert(command_name(c)[7] == 'h');
        },
        Command::ToggleAnnotationsSidebar => {
            reveal_strlit("toggle_annotations_sidebar");
            assert(command_name(c).len() == 26);
            assert(command_name(c)[0] == 't');
            assert(command_name(c)[25] == 'r');
            assert(command_name(c)[7] == 'a');
        },
        Command::CreateAnnotation => {
            reveal_strlit("create_annotation");
            assert(command_name(c).len() == 17);
            assert(command_name(c)[0] == 'c');
            assert(command_name(c)[16] == 'n');
            assert(command_name(c)[7] == 'a');
        },
        Command::OpenFile => {
            reveal_strlit("open_file");
            assert(command_name(c).len() == 9);
            assert(command_name(c)[0] == 'o');
            assert(command_name(c)[8] == 'e');
            assert(command_name(c)[7] == 'l');
        },
        Command::SaveDocument => {
            reveal_strlit("save_document");
            assert(command_name(c).len() == 13);
            assert(command_name(c)[0] == 's');
            assert(command_name(c)[12] == 't');
            assert(command_name(c)[7] == 'c');
        },
        Command::Quit => {
            reveal_strlit("quit");
            assert(command_name(c).len() == 4);
            assert(command_name(c)[0] == 'q');
            assert(command_name(c)[3] == 't');
        },
        Command::Cancel => {
            reveal_strlit("cancel");
            assert(command_name(c).len() == 6);
            assert(command_name(c)[0] == 'c');
            assert(command_name(c)[5] == 'l');
        },
    }
}

/// No two commands share a name.
pub proof fn lemma_names_distinct(a: Command, b: Command)
    ensures
        command_name(a) == command_name(b) ==> a == b,
{
    lemma_fingerprint(a);
    lemma_fingerprint(b);
}

/// The command whose canonical name is `name`, if there is one.
pub open spec fn command_called(name: Seq<char>) -> Option<Command> {
    if exists|c: Command| command_name(c) == name {
        Some(choose|c: Command| command_name(c) == name)
    } else {
        None
    }
}

/// Names round-trip: looking a command up by its own name finds that
/// command, for every command.
pub proof fn lemma_name_round_trip(c: Command)
    ensures
        command_called(command_name(c)) == Some(c),
{
    let d = choose|d: Command| command_name(d) == command_name(c);
    lemma_names_distinct(c, d);
}

impl Command {
    /// The command at position `i` of the canonical table.
    pub fn at(i: usize) -> (c: Command)
        requires
            i < COMMAND_COUNT,
        ensures
            c == spec_command_at(i as int),
    {
        match i {

            0 => Command::ScrollDown,
            1 => Command::ScrollUp,
            2 => Command::ScrollLeft,
            3 => Command::ScrollRight,
            4 => Command::ScrollHalfPageDown,
            5 => Command::ScrollHalfPageUp,
            6 => Command::ScrollPageDown,
            7 => Command::ScrollPageUp,
            8 => Command::NextPage,
            9 => Command::PrevPage,
            10 => Command::GotoFirstPage,
            11 => Command::GotoLastPage,
            12 => Command::ZoomIn,
            13 => Command::ZoomOut,
            14 => Command::FitWidth,
            15 => Command::ZoomReset,
            16 => Command::CenterView,
            17 => Command::FocusEnter,
            18 => Command::FocusEnterChar,
            19 => Command::FocusEnterWord,
            20 => Command::FocusEnterLine,
            21 => Command::FocusEnterSentence,
            22 => Command::FocusEnterParagraph,
            23 => Command::FocusExit,
            24 => Command::FocusLeft,
            25 => Command::FocusRight,
            26 => Command::FocusUp,
            27 => Command::FocusDown,
            28 => Command::FocusNextWord,
            29 => Command::FocusPrevWord,
            30 => Command::FocusNextLine,
            31 => Command::FocusNextSentence,
            32 => Command::FocusNextParagraph,
            33 => Command::VisualEnter,
            34 => Command::VisualEnterChar,
            35 => Command::VisualEnterWord,
            36 => Command::VisualEnterLine,
            37 => Command::VisualEnterSentence,
            38 => Command::VisualEnterParagraph,
            39 => Command::VisualExit,
            40 => Command::VisualLeft,
            41 => Command::VisualRight,
            42 => Command::VisualUp,
            43 => Command::VisualDown,
            44 => Command::VisualNextWord,
            45 => Command::VisualPrevWord,
            46 => Command::VisualNextLine,
            47 => Command::VisualNextSentence,
            48 => Command::VisualNextParagraph,
            49 => Command::VisualSwapEnds,
            50 => Command::VisualScopeChar,
            51 => Command::VisualScopeWord,
            52 => Command::VisualScopeLine,
            53 => Command::VisualScopeSentence,
            54 => Command::VisualScopeParagraph,
            55 => Command::VisualOtherChar,
            56 => Command::VisualOtherWord,
            57 => Command::VisualOtherLine,
            58 => Command::VisualOtherSentence,
            59 => Command::VisualOtherParagraph,
            60 => Command::HighlightEnter,
            61 => Command::HighlightCommit,
            62 => Command::HighlightDiscard,
            63 => Command::ToggleKeybindingsOverlay,
            64 => Command::HelpScrollDown,
            65 => Command::HelpScrollUp,
            66 => Command::HelpHalfPageDown,
            67 => Command::HelpHalfPageUp,
            68 => Command::HelpPageDown,
            69 => Command::HelpPageUp,
            70 => Command::HelpTop,
            71 => Command::HelpBottom,
            72 => Command::ToggleHighlightsSidebar,
            73 => Command::ToggleAnnotationsSidebar,
            74 => Command::CreateAnnotation,
            75 => Command::OpenFile,
            76 => Command::SaveDocument,
            77 => Command::Quit,
            _ => Command::Cancel,
        }
    }

    /// The canonical name of the command.
    pub fn name(self) -> (s: &'static str)
        ensures
            s@ == command_name(self),
    {
        match self {

            Command::ScrollDown => "scroll_down",
            Command::ScrollUp => "scroll_up",
            Command::ScrollLeft => "scroll_left",
            Command::ScrollRight => "scroll_right",
            Command::ScrollHalfPageDown => "scroll_half_page_down",
            Command::ScrollHalfPageUp => "scroll_half_page_up",
            Command::ScrollPageDown => "scroll_page_down",
            Command::ScrollPageUp => "scroll_page_up",
            Command::NextPage => "next_page",
            Command::PrevPage => "prev_page",
            Command::GotoFirstPage => "goto_first_page",
            Command::GotoLastPage => "goto_last_page",
            Command::ZoomIn => "zoom_in",
            Command::ZoomOut => "zoom_out",
            Command::FitWidth => "fit_width",
            Command::ZoomReset => "zoom_reset",
            Command::CenterView => "center_view",
            Command::FocusEnter => "focus_enter",
            Command::FocusEnterChar => "focus_enter_char",
            Command::FocusEnterWord => "focus_enter_word",
            Command::FocusEnterLine => "focus_enter_line",
            Command::FocusEnterSentence => "focus_enter_sentence",
            Command::FocusEnterParagraph => "focus_enter_paragraph",
            Command::FocusExit => "focus_exit",
            Command::FocusLeft => "focus_left",
            Command::FocusRight => "focus_right",
            Command::FocusUp => "focus_up",
            Command::FocusDown => "focus_down",
            Command::FocusNextWord => "focus_next_word",
            Command::FocusPrevWord => "focus_prev_word",
            Command::FocusNextLine => "focus_next_line",
            Command::FocusNextSentence => "focus_next_sentence",
            Command::FocusNextParagraph => "focus_next_paragraph",
            Command::VisualEnter => "visual_enter",
            Command::VisualEnterChar => "visual_enter_char",
            Command::VisualEnterWord => "visual_enter_word",
            Command::VisualEnterLine => "visual_enter_line",
            Command::VisualEnterSentence => "visual_enter_sentence",
            Command::VisualEnterParagraph => "visual_enter_paragraph",
            Command::VisualExit => "visual_exit",
            Command::VisualLeft => "visual_left",
            Command::VisualRight => "visual_right",
            Command::VisualUp => "visual_up",
            Command::VisualDown => "visual_down",
            Command::VisualNextWord => "visual_next_word",
            Command::VisualPrevWord => "visual_prev_word",
            Command::VisualNextLine => "visual_next_line",
            Command::VisualNextSentence => "visual_next_sentence",
            Command::VisualNextParagraph => "visual_next_paragraph",
            Command::VisualSwapEnds => "visual_swap_ends",
            Command::VisualScopeChar => "visual_scope_char",
            Command::VisualScopeWord => "visual_scope_word",
            Command::VisualScopeLine => "visual_scope_line",
            Command::VisualScopeSentence => "visual_scope_sentence",
            Command::VisualScopeParagraph => "visual_scope_paragraph",
            Command::VisualOtherChar => "visual_other_char",
            Command::VisualOtherWord => "visual_other_word",
            Command::VisualOtherLine => "visual_other_line",
            Command::VisualOtherSentence => "visual_other_sentence",
            Command::VisualOtherParagraph => "visual_other_paragraph",
            Command::HighlightEnter => "highlight_enter",
            Command::HighlightCommit => "highlight_commit",
            Command::HighlightDiscard => "highlight_discard",
            Command::ToggleKeybindingsOverlay => "toggle_keybindings_overlay",
            Command::HelpScrollDown => "help_scroll_down",
            Command::HelpScrollUp => "help_scroll_up",
            Command::HelpHalfPageDown => "help_half_page_down",
            Command::HelpHalfPageUp => "help_half_page_up",
            Command::HelpPageDown => "help_page_down",
            Command::HelpPageUp => "help_page_up",
            Command::HelpTop => "help_top",
            Command::HelpBottom => "help_bottom",
            Command::ToggleHighlightsSidebar => "toggle_highlights_sidebar",
            Command::ToggleAnnotationsSidebar => "toggle_annotations_sidebar",
            Command::CreateAnnotation => "create_annotation",
            Command::OpenFile => "open_file",
            Command::SaveDocument => "save_document",
            Command::Quit => "quit",
            Command::Cancel => "cancel",
        }
    }

    /// Concise user-facing label for command discovery surfaces.
    pub fn description(self) -> (s: &'static str)
        ensures
            s@ == command_description(self),
    {
        match self {

            Command::ScrollDown => "Scroll down",
            Command::ScrollUp => "Scroll up",
            Command::ScrollLeft => "Scroll left",
            Command::ScrollRight => "Scroll right",
            Command::ScrollHalfPageDown => "Scroll half a page down",
            Command::ScrollHalfPageUp => "Scroll half a page up",
            Command::ScrollPageDown => "Scroll one page down",
            Command::ScrollPageUp => "Scroll one page up",
            Command::NextPage => "Go to the next page",
            Command::PrevPage => "Go to the previous page",
            Command::GotoFirstPage => "Go to the first page",
            Command::GotoLastPage => "Go to the last page",
            Command::ZoomIn => "Zoom in",
            Command::ZoomOut => "Zoom out",
            Command::FitWidth => "Fit page width",
            Command::ZoomReset => "Reset zoom",
            Command::CenterView => "Center the current focus",
            Command::FocusEnter => "Enter focus mode",
            Command::FocusEnterChar => "Focus by character",
            Command::FocusEnterWord => "Focus by word",
            Command::FocusEnterLine => "Focus by line",
            Command::FocusEnterSentence => "Focus by sentence",
            Command::FocusEnterParagraph => "Focus by paragraph",
            Command::FocusExit => "Leave focus mode",
            Command::FocusLeft => "Move focus left",
            Command::FocusRight => "Move focus right",
            Command::FocusUp => "Move focus up",
            Command::FocusDown => "Move focus down",
            Command::FocusNextWord => "Move focus to the next word",
            Command::FocusPrevWord => "Move focus to the previous word",
            Command::FocusNextLine => "Move focus to the next line",
            Command::FocusNextSentence => "Move focus to the next sentence",
            Command::FocusNextParagraph => "Move focus to the next paragraph",
            Command::VisualEnter => "Enter visual mode",
            Command::VisualEnterChar => "Select by character",
            Command::VisualEnterWord => "Select by word",
            Command::VisualEnterLine => "Select by line",
            Command::VisualEnterSentence => "Select by sentence",
            Command::VisualEnterParagraph => "Select by paragraph",
            Command::VisualExit => "Leave visual mode",
            Command::VisualLeft => "Move the active selection end left",
            Command::VisualRight => "Move the active selection end right",
            Command::VisualUp => "Move the active selection end up",
            Command::VisualDown => "Move the active selection end down",
            Command::VisualNextWord => "Move the active end to the next word",
            Command::VisualPrevWord => "Move the active end to the previous word",
            Command::VisualNextLine => "Move the active end to the next line",
            Command::VisualNextSentence => "Move the active end to the next sentence",
            Command::VisualNextParagraph => "Move the active end to the next paragraph",
            Command::VisualSwapEnds => "Switch the active selection end",
            Command::VisualScopeChar => "Set the active end to character scope",
            Command::VisualScopeWord => "Set the active end to word scope",
            Command::VisualScopeLine => "Set the active end to line scope",
            Command::VisualScopeSentence => "Set the active end to sentence scope",
            Command::VisualScopeParagraph => "Set the active end to paragraph scope",
            Command::VisualOtherChar => "Switch ends with character scope",
            Command::VisualOtherWord => "Switch ends with word scope",
            Command::VisualOtherLine => "Switch ends with line scope",
            Command::VisualOtherSentence => "Switch ends with sentence scope",
            Command::VisualOtherParagraph => "Switch ends with paragraph scope",
            Command::HighlightEnter => "Start a highlight",
            Command::HighlightCommit => "Keep the pending highlight",
            Command::HighlightDiscard => "Discard the pending highlight",
            Command::ToggleKeybindingsOverlay => "Show or hide keybinding help",
            Command::HelpScrollDown => "Scroll help down",
            Command::HelpScrollUp => "Scroll help up",
            Command::HelpHalfPageDown => "Scroll help half a page down",
            Command::HelpHalfPageUp => "Scroll help half a page up",
            Command::HelpPageDown => "Scroll help one page down",
            Command::HelpPageUp => "Scroll help one page up",
            Command::HelpTop => "Go to the start of help",
            Command::HelpBottom => "Go to the end of help",
            Command::ToggleHighlightsSidebar => "Toggle the Highlights sidebar",
            Command::ToggleAnnotationsSidebar => "Toggle the Annotations sidebar",
            Command::CreateAnnotation => "Create a Markdown annotation",
            Command::OpenFile => "Open a PDF",
            Command::SaveDocument => "Save highlights into the PDF",
            Command::Quit => "Quit syodep",
            Command::Cancel => "Cancel the current action",
        }
    }

    /// The command called `name`, or an [`UnknownCommand`] carrying the name
    /// when there is none.
    pub fn from_name(name: &str) -> (r: Result<Command, UnknownCommand>)
        ensures
            match r {
                Ok(c) => command_called(name@) == Some(c),
                Err(e) => e.name@ == name@ && command_called(name@) is None,
            },
    {
        let mut i: usize = 0;
        while i < COMMAND_COUNT
            invariant
                i <= COMMAND_COUNT,
                forall|k: int| 0 <= k < i ==> command_name(spec_command_at(k)) != name@,
            decreases COMMAND_COUNT - i,
        {
            let c = Command::at(i);
            if str_eq(c.name(), name) {
                proof {
                    lemma_name_round_trip(c);
                }
                return Ok(c);
            }
            i = i + 1;
        }
        assert forall|c: Command| command_name(c) != name@ by {
            lemma_command_index(c);
        }
        Err(UnknownCommand { name: owned(name) })
    }
}

impl std::str::FromStr for Command {
    type Err = UnknownCommand;

    fn from_str(s: &str) -> (r: Result<Self, Self::Err>)
        ensures
            match r {
                Ok(c) => command_called(s@) == Some(c),
                Err(e) => e.name@ == s@ && command_called(s@) is None,
            },
    {
        Command::from_name(s)
    }
}

} // verus!
