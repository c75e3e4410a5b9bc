use syodep::caret::{Caret, Mode, Scope, VisualAnchor};
use syodep::status::{DocumentStatus, StatusLine};

fn at(line: usize, cell: usize) -> Caret {
    Caret { page: 0, line, cell }
}

fn status(mode: Mode) -> StatusLine {
    StatusLine {
        document: Some(DocumentStatus {
            name: "paper.pdf".to_string(),
            current_page: 2,
            page_count: 12,
            zoom_percent: 150,
        }),
        mode,
        focus_scope: Scope::Word,
        focus_span: None,
        visual: None,
        visual_span: None,
        pending: None,
        message: None,
        error: None,
    }
}

#[test]
fn status_shows_document_page_and_zoom() {
    assert_eq!(status(Mode::Normal).text(), "paper.pdf  [3/12]  150%");
    let none = StatusLine {
        document: None,
        ..status(Mode::Normal)
    };
    assert_eq!(none.text(), "no document - press <leader>o to open a PDF");
}

#[test]
fn focus_mode_shows_scope_and_position() {
    let mut s = status(Mode::Focus);
    s.focus_span = Some((at(4, 9), at(4, 12)));
    assert_eq!(s.text(), "paper.pdf  [3/12]  150%  -- FOCUS (word) --  Ln 5, Col 10");
    s.focus_span = Some((at(4, 9), at(6, 0)));
    s.focus_scope = Scope::Sentence;
    assert_eq!(s.text(), "paper.pdf  [3/12]  150%  -- FOCUS (sentence) --  Ln 5-7");
}

#[test]
fn selections_show_both_scopes_when_they_differ() {
    let mut s = status(Mode::Visual);
    s.visual = Some(VisualAnchor {
        anchor: at(0, 0),
        anchor_scope: Scope::Line,
        return_mode: Mode::Normal,
    });
    s.visual_span = Some((at(0, 0), at(2, 3)));
    assert_eq!(
        s.text(),
        "paper.pdf  [3/12]  150%  -- VISUAL (word/line) --  Ln 1-3"
    );
    s.mode = Mode::Highlight;
    s.focus_scope = Scope::Line;
    s.visual_span = None;
    assert_eq!(s.text(), "paper.pdf  [3/12]  150%  -- HIGHLIGHT (line) --");
}

#[test]
fn pending_input_messages_and_errors_follow() {
    let mut s = status(Mode::Normal);
    s.pending = Some("12g".to_string());
    s.message = Some("Saved".to_string());
    s.error = Some("cannot open".to_string());
    assert_eq!(
        s.text(),
        "paper.pdf  [3/12]  150%  12g  Saved  ERROR: cannot open"
    );
}
