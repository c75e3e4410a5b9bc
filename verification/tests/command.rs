use syodep::command::{Command, COMMAND_COUNT};

const ALL_COMMANDS: &[(&str, Command)] = &[
    ("scroll_down", Command::ScrollDown),
    ("scroll_up", Command::ScrollUp),
    ("scroll_left", Command::ScrollLeft),
    ("scroll_right", Command::ScrollRight),
    ("scroll_half_page_down", Command::ScrollHalfPageDown),
    ("scroll_half_page_up", Command::ScrollHalfPageUp),
    ("scroll_page_down", Command::ScrollPageDown),
    ("scroll_page_up", Command::ScrollPageUp),
    ("next_page", Command::NextPage),
    ("prev_page", Command::PrevPage),
    ("goto_first_page", Command::GotoFirstPage),
    ("goto_last_page", Command::GotoLastPage),
    ("zoom_in", Command::ZoomIn),
    ("zoom_out", Command::ZoomOut),
    ("fit_width", Command::FitWidth),
    ("zoom_reset", Command::ZoomReset),
    ("center_view", Command::CenterView),
    ("focus_enter", Command::FocusEnter),
    ("focus_enter_char", Command::FocusEnterChar),
    ("focus_enter_word", Command::FocusEnterWord),
    ("focus_enter_line", Command::FocusEnterLine),
    ("focus_enter_sentence", Command::FocusEnterSentence),
    ("focus_enter_paragraph", Command::FocusEnterParagraph),
    ("focus_exit", Command::FocusExit),
    ("focus_left", Command::FocusLeft),
    ("focus_right", Command::FocusRight),
    ("focus_up", Command::FocusUp),
    ("focus_down", Command::FocusDown),
    ("focus_next_word", Command::FocusNextWord),
    ("focus_prev_word", Command::FocusPrevWord),
    ("focus_next_line", Command::FocusNextLine),
    ("focus_next_sentence", Command::FocusNextSentence),
    ("focus_next_paragraph", Command::FocusNextParagraph),
    ("visual_enter", Command::VisualEnter),
    ("visual_enter_char", Command::VisualEnterChar),
    ("visual_enter_word", Command::VisualEnterWord),
    ("visual_enter_line", Command::VisualEnterLine),
    ("visual_enter_sentence", Command::VisualEnterSentence),
    ("visual_enter_paragraph", Command::VisualEnterParagraph),
    ("visual_exit", Command::VisualExit),
    ("visual_left", Command::VisualLeft),
    ("visual_right", Command::VisualRight),
    ("visual_up", Command::VisualUp),
    ("visual_down", Command::VisualDown),
    ("visual_next_word", Command::VisualNextWord),
    ("visual_prev_word", Command::VisualPrevWord),
    ("visual_next_line", Command::VisualNextLine),
    ("visual_next_sentence", Command::VisualNextSentence),
    ("visual_next_paragraph", Command::VisualNextParagraph),
    ("visual_swap_ends", Command::VisualSwapEnds),
    ("visual_scope_char", Command::VisualScopeChar),
    ("visual_scope_word", Command::VisualScopeWord),
    ("visual_scope_line", Command::VisualScopeLine),
    ("visual_scope_sentence", Command::VisualScopeSentence),
    ("visual_scope_paragraph", Command::VisualScopeParagraph),
    ("visual_other_char", Command::VisualOtherChar),
    ("visual_other_word", Command::VisualOtherWord),
    ("visual_other_line", Command::VisualOtherLine),
    ("visual_other_sentence", Command::VisualOtherSentence),
    ("visual_other_paragraph", Command::VisualOtherParagraph),
    ("highlight_enter", Command::HighlightEnter),
    ("highlight_commit", Command::HighlightCommit),
    ("highlight_discard", Command::HighlightDiscard),
    (
        "toggle_keybindings_overlay",
        Command::ToggleKeybindingsOverlay,
    ),
    ("help_scroll_down", Command::HelpScrollDown),
    ("help_scroll_up", Command::HelpScrollUp),
    ("help_half_page_down", Command::HelpHalfPageDown),
    ("help_half_page_up", Command::HelpHalfPageUp),
    ("help_page_down", Command::HelpPageDown),
    ("help_page_up", Command::HelpPageUp),
    ("help_top", Command::HelpTop),
    ("help_bottom", Command::HelpBottom),
    (
        "toggle_highlights_sidebar",
        Command::ToggleHighlightsSidebar,
    ),
    (
        "toggle_annotations_sidebar",
        Command::ToggleAnnotationsSidebar,
    ),
    ("create_annotation", Command::CreateAnnotation),
    ("open_file", Command::OpenFile),
    ("save_document", Command::SaveDocument),
    ("quit", Command::Quit),
    ("cancel", Command::Cancel),
];

#[test]
fn parses_known_commands() {
    assert_eq!(
        "scroll_down".parse::<Command>().unwrap(),
        Command::ScrollDown
    );
    assert_eq!("quit".parse::<Command>().unwrap(), Command::Quit);
}

#[test]
fn unknown_command_reports_name() {
    let err = "warp_speed".parse::<Command>().unwrap_err();
    assert_eq!(err.name, "warp_speed");
}

#[test]
fn names_round_trip() {
    for (name, command) in ALL_COMMANDS {
        assert_eq!(command.name(), *name);
        assert_eq!(name.parse::<Command>().unwrap(), *command);
        assert!(!command.description().is_empty());
    }
}

#[test]
fn the_command_table_lists_every_command_once_in_order() {
    assert_eq!(ALL_COMMANDS.len(), COMMAND_COUNT);
    for (i, (name, command)) in ALL_COMMANDS.iter().enumerate() {
        assert_eq!(Command::at(i), *command, "position {i}");
        assert_eq!(Command::from_name(name), Ok(*command));
    }
}

#[test]
fn unknown_command_message_quotes_the_name() {
    let err = Command::from_name("warp speed").unwrap_err();
    assert_eq!(err.message(), "unknown command \"warp speed\"");
    let err = Command::from_name("").unwrap_err();
    assert_eq!(err.message(), "unknown command \"\"");
}

#[test]
fn command_names_are_case_sensitive() {
    assert!(Command::from_name("Quit").is_err());
    assert!(Command::from_name("quit ").is_err());
}
