//! What the UI shell must do after an input event.
//!
//! The core never touches the screen, the file system dialogs or the event
//! loop itself: each key press yields an [`Effects`] value describing the
//! requests the shell must carry out.

use vstd::prelude::*;

verus! {

/// Side effects the UI shell must perform after an input event.
#[derive(Debug, Clone, Copy, PartialEq, Eq, Structural)]
pub struct Effects {
    pub redraw: bool,
    pub quit: bool,
    /// The shell should show a native file-open dialog and open the chosen
    /// document.
    pub open_file_dialog: bool,
    /// A partial key sequence is buffered. The shell should arm its pause
    /// timer and report the timeout when it fires; when this is false it
    /// should cancel any armed timer.
    pub pending_input: bool,
    /// The document was reloaded from disk, so any page bitmaps the shell is
    /// holding are stale even though the layout and zoom did not change.
    pub reload: bool,
    /// Quitting would lose highlights not yet embedded in the PDF. The shell
    /// should ask (Save & Quit / Discard & Quit / Cancel) rather than quitting
    /// outright.
    pub confirm_quit: bool,
}

/// The effects of nothing having happened: no request of any kind.
pub open spec fn no_effects() -> Effects {
    Effects {
        redraw: false,
        quit: false,
        open_file_dialog: false,
        pending_input: false,
        reload: false,
        confirm_quit: false,
    }
}

/// The effects of running `a` and then `b` for one key press: every request
/// of either, and the pending state `b` left behind.
pub open spec fn merged(a: Effects, b: Effects) -> Effects {
    Effects {
        redraw: a.redraw || b.redraw,
        quit: a.quit || b.quit,
        open_file_dialog: a.open_file_dialog || b.open_file_dialog,
        reload: a.reload || b.reload,
        confirm_quit: a.confirm_quit || b.confirm_quit,
        pending_input: b.pending_input,
    }
}

impl Default for Effects {
    fn default() -> (r: Self)
        ensures
            r == no_effects(),
    {
        Effects {
            redraw: false,
            quit: false,
            open_file_dialog: false,
            pending_input: false,
            reload: false,
            confirm_quit: false,
        }
    }
}

impl Effects {
    /// Just a redraw.
    pub fn redraw() -> (r: Self)
        ensures
            r == (Effects { redraw: true, ..no_effects() }),
    {
        Effects { redraw: true, ..Effects::default() }
    }

    /// Combine the effects of two commands run for one key press; every
    /// effect is a request, so they OR together. `pending_input` is not a
    /// request like the others: it describes the state left behind, so the
    /// later value wins.
    pub fn merge(self, other: Self) -> (r: Self)
        ensures
            r == merged(self, other),
    {
        Effects {
            redraw: self.redraw || other.redraw,
            quit: self.quit || other.quit,
            open_file_dialog: self.open_file_dialog || other.open_file_dialog,
            reload: self.reload || other.reload,
            confirm_quit: self.confirm_quit || other.confirm_quit,
            pending_input: other.pending_input,
        }
    }
}

/// Merging is associative: the effects of three commands run for one key
/// press do not depend on how they are grouped.
pub proof fn lemma_merge_associative(a: Effects, b: Effects, c: Effects)
    ensures
        merged(merged(a, b), c) == merged(a, merged(b, c)),
{
}

/// Merging after nothing changes nothing: the empty effects are a left
/// identity of merging.
pub proof fn lemma_merge_after_nothing(e: Effects)
    ensures
        merged(no_effects(), e) == e,
{
}

/// Merging the same effects twice requests nothing more than merging them
/// once.
pub proof fn lemma_merge_idempotent(e: Effects)
    ensures
        merged(e, e) == e,
{
}

} // verus!
