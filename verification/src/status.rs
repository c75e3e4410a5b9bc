//! The status line: which document, where in it, the mode and its scopes,
//! and any pending input, message or error.

use vstd::prelude::*;
use vstd::string::StringExecFns;

use crate::caret::{scope_name, Caret, Mode, Scope, VisualAnchor};
use crate::text::{decimal, decimal_wide, owned};

verus! {

/// What the status line says about the open document.
#[derive(Debug, Clone, PartialEq, Eq)]
pub struct DocumentStatus {
    /// The document's file name.
    pub name: String,
    /// The page at the top of the view, counted from zero.
    pub current_page: usize,
    pub page_count: usize,
    /// The zoom factor in per cent, rounded to a whole number.
    pub zoom_percent: u64,
}

/// Everything the status line shows, as plain values.
#[derive(Debug, Clone, PartialEq, Eq)]
pub struct StatusLine {
    /// The open document, if any.
    pub document: Option<DocumentStatus>,
    pub mode: Mode,
    /// The scope of the focus position: the moving end in visual and
    /// highlight mode.
    pub focus_scope: Scope,
    /// The first and last cell of the focused unit, in focus mode.
    pub focus_span: Option<(Caret, Caret)>,
    /// The anchored end of the selection, in visual and highlight mode.
    pub visual: Option<VisualAnchor>,
    /// The first and last cell of the selection.
    pub visual_span: Option<(Caret, Caret)>,
    /// The half-typed count and key sequence, when input is pending.
    pub pending: Option<String>,
    /// A message from the last command.
    pub message: Option<String>,
    /// The last error.
    pub error: Option<String>,
}

/// The decimal rendering of `n + 1`, a position counted from one.
pub open spec fn ordinal(n: usize) -> Seq<char> {
    decimal((n + 1) as nat)
}

/// What the status line says about the document, or how to open one.
pub open spec fn document_text(d: Option<DocumentStatus>) -> Seq<char> {
    match d {
        Some(doc) => doc.name@ + "  ["@ + ordinal(doc.current_page) + "/"@ + decimal(
            doc.page_count as nat,
        ) + "]  "@ + decimal(doc.zoom_percent as nat) + "%"@,
        None => "no document - press <leader>o to open a PDF"@,
    }
}

/// What the status line says in focus mode: the scope, and the line and
/// column of the focused unit, or its lines when it spans several.
pub open spec fn focus_text(s: StatusLine) -> Seq<char> {
    if s.mode == Mode::Focus {
        "  -- FOCUS ("@ + scope_name(s.focus_scope) + ") --"@ + match s.focus_span {
            Some((start, end)) => if start.line == end.line {
                "  Ln "@ + ordinal(start.line) + ", Col "@ + ordinal(start.cell)
            } else {
                "  Ln "@ + ordinal(start.line) + "-"@ + ordinal(end.line)
            },
            None => Seq::empty(),
        }
    } else {
        Seq::empty()
    }
}

/// What the status line says in visual and highlight mode: the mode, the
/// scopes of both ends (the moving one first) when they differ, and the
/// lines of the selection.
pub open spec fn selection_text(s: StatusLine) -> Seq<char> {
    if s.mode == Mode::Visual || s.mode == Mode::Highlight {
        let name = if s.mode == Mode::Visual {
            "VISUAL"@
        } else {
            "HIGHLIGHT"@
        };
        (match s.visual {
            Some(a) => if s.focus_scope == a.anchor_scope {
                "  -- "@ + name + " ("@ + scope_name(s.focus_scope) + ") --"@
            } else {
                "  -- "@ + name + " ("@ + scope_name(s.focus_scope) + "/"@ + scope_name(
                    a.anchor_scope,
                ) + ") --"@
            },
            None => "  -- "@ + name + " --"@,
        }) + match s.visual_span {
            Some((start, end)) => "  Ln "@ + ordinal(start.line) + "-"@ + ordinal(end.line),
            None => Seq::empty(),
        }
    } else {
        Seq::empty()
    }
}

/// An optional part of the status line, after its separator.
pub open spec fn part_text(prefix: Seq<char>, part: Option<String>) -> Seq<char> {
    match part {
        Some(text) => prefix + text@,
        None => Seq::empty(),
    }
}

/// The whole status line.
pub open spec fn status_text(s: StatusLine) -> Seq<char> {
    document_text(s.document) + focus_text(s) + selection_text(s) + part_text("  "@, s.pending)
        + part_text("  "@, s.message) + part_text("  ERROR: "@, s.error)
}

/// Append the decimal rendering of `n + 1`.
fn push_ordinal(out: &mut String, n: usize)
    ensures
        final(out)@ == old(out)@ + ordinal(n),
{
    let s = decimal_wide(n as u128 + 1);
    out.append(s.as_str());
}

/// Append what the status line says about the document.
fn push_document(out: &mut String, document: &Option<DocumentStatus>)
    ensures
        final(out)@ == old(out)@ + document_text(*document),
{
    let ghost start = out@;
    match document {
        Some(doc) => {
            out.append(doc.name.as_str());
            out.append("  [");
            push_ordinal(out, doc.current_page);
            out.append("/");
            let count = decimal_wide(doc.page_count as u128);
            out.append(count.as_str());
            out.append("]  ");
            let zoom = decimal_wide(doc.zoom_percent as u128);
            out.append(zoom.as_str());
            out.append("%");
        },
        None => out.append("no document - press <leader>o to open a PDF"),
    }
    assert(out@ =~= start + document_text(*document));
}

/// Append `  Ln <first>-<last>`.
fn push_lines(out: &mut String, start: Caret, end: Caret)
    ensures
        final(out)@ == old(out)@ + ("  Ln "@ + ordinal(start.line) + "-"@ + ordinal(end.line)),
{
    let ghost before = out@;
    out.append("  Ln ");
    push_ordinal(out, start.line);
    out.append("-");
    push_ordinal(out, end.line);
    assert(out@ =~= before + ("  Ln "@ + ordinal(start.line) + "-"@ + ordinal(end.line)));
}

/// Append an optional part after its separator.
fn push_part(out: &mut String, prefix: &str, part: &Option<String>)
    ensures
        final(out)@ == old(out)@ + part_text(prefix@, *part),
{
    let ghost before = out@;
    match part {
        Some(text) => {
            out.append(prefix);
            out.append(text.as_str());
        },
        None => {},
    }
    assert(out@ =~= before + part_text(prefix@, *part));
}

impl StatusLine {
    /// Append what the status line says in focus mode.
    fn push_focus(&self, out: &mut String)
        ensures
            final(out)@ == old(out)@ + focus_text(*self),
    {
        let ghost before = out@;
        if self.mode == Mode::Focus {
            out.append("  -- FOCUS (");
            out.append(self.focus_scope.name());
            out.append(") --");
            match self.focus_span {
                Some((start, end)) => {
                    if start.line == end.line {
                        out.append("  Ln ");
                        push_ordinal(out, start.line);
                        out.append(", Col ");
                        push_ordinal(out, start.cell);
                    } else {
                        push_lines(out, start, end);
                    }
                },
                None => {},
            }
        }
        assert(out@ =~= before + focus_text(*self));
    }

    /// Append what the status line says in visual and highlight mode.
    fn push_selection(&self, out: &mut String)
        ensures
            final(out)@ == old(out)@ + selection_text(*self),
    {
        let ghost before = out@;
        if self.mode == Mode::Visual || self.mode == Mode::Highlight {
            let name = if self.mode == Mode::Visual {
                "VISUAL"
            } else {
                "HIGHLIGHT"
            };
            match self.visual {
                Some(a) => {
                    out.append("  -- ");
                    out.append(name);
                    out.append(" (");
                    out.append(self.focus_scope.name());
                    if self.focus_scope != a.anchor_scope {
                        out.append("/");
                        out.append(a.anchor_scope.name());
                    }
                    out.append(") --");
                },
                None => {
                    out.append("  -- ");
                    out.append(name);
                    out.append(" --");
                },
            }
            match self.visual_span {
                Some((start, end)) => push_lines(out, start, end),
                None => {},
            }
        }
        assert(out@ =~= before + selection_text(*self));
    }

    /// The text of the status line.
    pub fn text(&self) -> (r: String)
        ensures
            r@ == status_text(*self),
    {
        let mut out = String::new();
        push_document(&mut out, &self.document);
        self.push_focus(&mut out);
        self.push_selection(&mut out);
        push_part(&mut out, "  ", &self.pending);
        push_part(&mut out, "  ", &self.message);
        push_part(&mut out, "  ERROR: ", &self.error);
        assert(out@ =~= status_text(*self));
        out
    }
}

} // verus!
