//! Vim-like input handling: a keymap of chord sequences and the
//! pending-input state machine that resolves key presses against it.
//!
//! Input flows as individual [`Chord`]s, one per key press. The
//! [`InputState`] accumulates an optional count prefix (`5j`, `12G`) and a
//! pending chord sequence, resolving it against the [`Keymap`].
//!
//! Disambiguation: if a sequence is both a complete binding and a prefix of a
//! longer one, the machine waits instead of firing eagerly. The wait ends one
//! of three ways: the next key press, a pause ([`InputState::timeout`]), or
//! `<Esc>`, which cancels.
//!
//! When the wait ends without an exact match, the **longest pending prefix
//! that is itself a complete binding** fires and the leftover chords are
//! queued for replay ([`InputState::next_replay`]). So with `o` and `ow`
//! both bound, `ow` resolves directly while `oj` runs `o` and then `j`.
//!
//! The pause is the only time-dependent part and lives entirely in
//! [`InputState::timeout`]: this module never reads a clock. The replay queue
//! is drained by the caller, because the fired command may change the mode
//! and the replayed chords must resolve against the new mode's keymap.

use std::collections::VecDeque;

use vstd::prelude::*;
use vstd::string::StringExecFns;

use crate::command::{command_name, Command, UnknownCommand};
use crate::keys::{
    chord_text, failure_message, has_spelling, key_error_text, lemma_display_round_trips,
    lemma_leader_group, parse_chars, parse_sequence_with_leader, sequence_text, Chord,
    Key, KeyParseError, NamedKey, ParseFailure,
};
use crate::text::{ascii_lower_seq, debug_quote, debug_quoted, decimal, decimal_string, is_prefix, owned};

verus! {

/// The chord sequences of a keymap, each bound to a command.
///
/// The sequences are pairwise distinct, so the keymap is a finite map from
/// sequences to commands (its view). Binding a sequence again replaces its
/// command.
#[derive(Debug, Clone)]
pub struct Keymap {
    bindings: Vec<(Vec<Chord>, Command)>,
    /// What `<leader>` expands to in binding strings. Carried on the keymap
    /// so the mode keymaps, each a copy of the normal one plus an overlay,
    /// cannot end up with a different leader from the table they extend.
    leader: Vec<Chord>,
}

/// What the keymap holds at a chord sequence that some binding passes
/// through: the command bound to exactly it, if any, and whether some longer
/// binding continues it.
#[derive(Debug, Clone, Copy)]
pub struct Node {
    pub command: Option<Command>,
    pub has_children: bool,
}

/// Errors found while building a keymap from config entries.
#[derive(Debug, Clone, PartialEq, Eq)]
pub enum KeymapError {
    Key(KeyParseError),
    Command { sequence: String, source: UnknownCommand },
}

/// The text of a [`KeymapError`].
pub open spec fn keymap_error_text(e: KeymapError) -> Seq<char> {
    match e {
        KeymapError::Key(k) => key_error_text(k),
        KeymapError::Command { sequence, source } => "binding "@ + debug_quoted(sequence@) + ": "@
            + ("unknown command "@ + debug_quoted(source.name@))
            + " (see docs/commands.md for the command list)"@,
    }
}

impl KeymapError {
    /// The user-facing message of the error.
    pub fn message(&self) -> (r: String)
        ensures
            r@ == keymap_error_text(*self),
    {
        match self {
            KeymapError::Key(k) => k.describe(),
            KeymapError::Command { sequence, source } => {
                let mut r = owned("binding ");
                let q = debug_quote(sequence.as_str());
                r.append(q.as_str());
                r.append(": ");
                let m = source.message();
                r.append(m.as_str());
                r.append(" (see docs/commands.md for the command list)");
                r
            },
        }
    }
}

/// What went wrong with one config entry, as plain text.
pub enum EntryError {
    /// The key sequence (first) was rejected with the message (second).
    Key(Seq<char>, Seq<char>),
    /// The command name (second) of the entry for the key sequence (first)
    /// names no command.
    Command(Seq<char>, Seq<char>),
}

/// The sequence-to-command map held by a list of distinct bindings.
pub open spec fn bindings_map(bs: Seq<(Vec<Chord>, Command)>) -> Map<Seq<Chord>, Command> {
    Map::new(
        |p: Seq<Chord>| exists|i: int| 0 <= i < bs.len() && #[trigger] bs[i].0@ == p,
        |p: Seq<Chord>| bs[choose|i: int| 0 <= i < bs.len() && #[trigger] bs[i].0@ == p].1,
    )
}

/// No two bindings share a sequence.
pub open spec fn distinct_sequences(bs: Seq<(Vec<Chord>, Command)>) -> bool {
    forall|i: int, j: int|
        0 <= i < bs.len() && 0 <= j < bs.len() && i != j ==> #[trigger] bs[i].0@ != #[trigger] bs[j].0@
}

/// In a list of distinct bindings, each binding's sequence maps to its command.
proof fn lemma_bindings_map_at(bs: Seq<(Vec<Chord>, Command)>, i: int)
    requires
        distinct_sequences(bs),
        0 <= i < bs.len(),
    ensures
        bindings_map(bs).contains_key(bs[i].0@),
        bindings_map(bs)[bs[i].0@] == bs[i].1,
{
    let p = bs[i].0@;
    assert(exists|k: int| 0 <= k < bs.len() && #[trigger] bs[k].0@ == p);
    let j = choose|k: int| 0 <= k < bs.len() && #[trigger] bs[k].0@ == p;
    assert(i == j);
}

/// Whether some binding passes through `p` (the empty sequence always does).
pub open spec fn has_node(m: Map<Seq<Chord>, Command>, p: Seq<Chord>) -> bool {
    p.len() == 0 || exists|b: Seq<Chord>| #[trigger] m.contains_key(b) && is_prefix(p, b)
}

/// Whether some binding strictly extends `p`.
pub open spec fn has_children(m: Map<Seq<Chord>, Command>, p: Seq<Chord>) -> bool {
    exists|b: Seq<Chord>| #[trigger] m.contains_key(b) && is_prefix(p, b) && b.len() > p.len()
}

/// The command bound to exactly `p`, if any.
pub open spec fn command_at_spec(m: Map<Seq<Chord>, Command>, p: Seq<Chord>) -> Option<Command> {
    if m.contains_key(p) {
        Some(m[p])
    } else {
        None
    }
}

/// The command a name names, if any.
pub open spec fn command_named(name: Seq<char>) -> Option<Command> {
    if exists|c: Command| command_name(c) == name {
        Some(choose|c: Command| command_name(c) == name)
    } else {
        None
    }
}

/// The map after binding the config entries, in order, with `leader` for
/// `<leader>`. Entries whose sequence or command is invalid bind nothing.
pub open spec fn overlay_map(
    m: Map<Seq<Chord>, Command>,
    entries: Seq<(Seq<char>, Seq<char>)>,
    leader: Seq<Chord>,
) -> Map<Seq<Chord>, Command>
    decreases entries.len(),
{
    if entries.len() == 0 {
        m
    } else {
        let e = entries[0];
        let next = match parse_chars(e.0, Some(leader)) {
            Ok(cs) => match command_named(e.1) {
                Some(c) => m.insert(cs, c),
                None => m,
            },
            Err(_) => m,
        };
        overlay_map(next, entries.skip(1), leader)
    }
}

/// The errors binding the config entries reports, one per invalid entry, in
/// order: a rejected key sequence first, otherwise an unknown command name.
pub open spec fn overlay_errors(entries: Seq<(Seq<char>, Seq<char>)>, leader: Seq<Chord>) -> Seq<
    EntryError,
>
    decreases entries.len(),
{
    if entries.len() == 0 {
        Seq::empty()
    } else {
        let e = entries[0];
        let here: Seq<EntryError> = match parse_chars(e.0, Some(leader)) {
            Ok(_) => match command_named(e.1) {
                Some(_) => Seq::empty(),
                None => seq![EntryError::Command(e.0, e.1)],
            },
            Err(f) => seq![EntryError::Key(e.0, failure_message(f, e.0))],
        };
        here + overlay_errors(entries.skip(1), leader)
    }
}

/// The plain-text view of a keymap error.
pub open spec fn entry_error_view(e: KeymapError) -> EntryError {
    match e {
        KeymapError::Key(k) => EntryError::Key(k.sequence@, k.message@),
        KeymapError::Command { sequence, source } => EntryError::Command(
            sequence@,
            source.name@,
        ),
    }
}

/// The views of config entries.
pub open spec fn entries_view(entries: Seq<(&str, &str)>) -> Seq<(Seq<char>, Seq<char>)> {
    entries.map_values(|e: (&str, &str)| (e.0@, e.1@))
}

impl View for Keymap {
    type V = Map<Seq<Chord>, Command>;

    closed spec fn view(&self) -> Map<Seq<Chord>, Command> {
        bindings_map(self.bindings@)
    }
}

/// A copy of a chord slice.
fn copy_chords(cs: &[Chord]) -> (v: Vec<Chord>)
    ensures
        v@ == cs@,
{
    let mut v: Vec<Chord> = Vec::new();
    let mut i: usize = 0;
    while i < cs.len()
        invariant
            i <= cs@.len(),
            v@ == cs@.take(i as int),
        decreases cs@.len() - i,
    {
        v.push(cs[i]);
        i = i + 1;
        assert(v@ =~= cs@.take(i as int));
    }
    assert(cs@.take(cs@.len() as int) =~= cs@);
    v
}

/// The first `len` chords of `cs`.
fn chord_prefix(cs: &[Chord], len: usize) -> (v: Vec<Chord>)
    requires
        len <= cs@.len(),
    ensures
        v@ == cs@.take(len as int),
{
    let mut v: Vec<Chord> = Vec::new();
    let mut i: usize = 0;
    while i < len
        invariant
            i <= len <= cs@.len(),
            v@ == cs@.take(i as int),
        decreases len - i,
    {
        v.push(cs[i]);
        i = i + 1;
        assert(v@ =~= cs@.take(i as int));
    }
    v
}

/// Whether `a` is a prefix of `b`.
fn chords_prefix_of(a: &[Chord], b: &[Chord]) -> (r: bool)
    ensures
        r == is_prefix(a@, b@),
{
    if a.len() > b.len() {
        return false;
    }
    let mut i: usize = 0;
    while i < a.len()
        invariant
            a@.len() <= b@.len(),
            i <= a@.len(),
            forall|k: int| 0 <= k < i ==> a@[k] == b@[k],
        decreases a@.len() - i,
    {
        if a[i] != b[i] {
            assert(b@.take(a@.len() as int)[i as int] != a@[i as int]);
            return false;
        }
        i = i + 1;
    }
    assert(b@.take(a@.len() as int) =~= a@);
    true
}

impl Keymap {
    /// The keymap's invariant: its bindings have distinct sequences.
    pub closed spec fn wf(&self) -> bool {
        distinct_sequences(self.bindings@)
    }

    /// What `<leader>` expands to in this keymap's bindings.
    pub closed spec fn leader_view(&self) -> Seq<Chord> {
        self.leader@
    }

    /// An empty keymap with the given leader.
    pub fn new(leader: &[Chord]) -> (k: Self)
        ensures
            k.wf(),
            k@ == Map::<Seq<Chord>, Command>::empty(),
            k.leader_view() == leader@,
    {
        let k = Keymap { bindings: Vec::new(), leader: copy_chords(leader) };
        assert(k@ =~= Map::<Seq<Chord>, Command>::empty());
        k
    }

    /// A copy of this keymap: the same bindings under the same leader.
    pub fn duplicate(&self) -> (r: Self)
        requires
            self.wf(),
        ensures
            r.wf(),
            r@ == self@,
            r.leader_view() == self.leader_view(),
    {
        let mut bindings: Vec<(Vec<Chord>, Command)> = Vec::new();
        let mut i: usize = 0;
        while i < self.bindings.len()
            invariant
                i <= self.bindings@.len(),
                bindings@.len() == i,
                forall|k: int|
                    0 <= k < i ==> (#[trigger] bindings@[k]).0@ == self.bindings@[k].0@
                        && bindings@[k].1 == self.bindings@[k].1,
            decreases self.bindings@.len() - i,
        {
            let chords = copy_chords(self.bindings[i].0.as_slice());
            bindings.push((chords, self.bindings[i].1));
            i = i + 1;
        }
        let r = Keymap { bindings, leader: copy_chords(self.leader.as_slice()) };
        proof {
            let a = r.bindings@;
            let b = self.bindings@;
            assert forall|x: int, y: int|
                0 <= x < a.len() && 0 <= y < a.len() && x != y implies #[trigger] a[x].0@
                != #[trigger] a[y].0@ by {
                assert(b[x].0@ != b[y].0@);
            }
            assert forall|p: Seq<Chord>| #[trigger] r@.contains_key(p) == self@.contains_key(p) by {
                if r@.contains_key(p) {
                    let k = choose|k: int| 0 <= k < a.len() && #[trigger] a[k].0@ == p;
                    assert(b[k].0@ == p);
                }
                if self@.contains_key(p) {
                    let k = choose|k: int| 0 <= k < b.len() && #[trigger] b[k].0@ == p;
                    assert(a[k].0@ == p);
                }
            }
            assert forall|p: Seq<Chord>| #[trigger] r@.contains_key(p) implies r@[p] == self@[p] by {
                let k = choose|k: int| 0 <= k < a.len() && #[trigger] a[k].0@ == p;
                lemma_bindings_map_at(a, k);
                lemma_bindings_map_at(b, k);
            }
            assert(r@ =~= self@);
        }
        r
    }

    /// Build a keymap from `(key sequence, command name)` pairs, e.g. the
    /// `[keys]` table of the config file.
    ///
    /// Every entry is validated and every invalid one reported, so a config
    /// can be fixed in one pass; valid entries are kept even when others
    /// fail. `leader` is what `<leader>` in a binding expands to.
    pub fn from_entries(entries: &[(&str, &str)], leader: &[Chord]) -> (r: (Self, Vec<KeymapError>))
        ensures
            r.0.wf(),
            r.0.leader_view() == leader@,
            r.0@ == overlay_map(Map::empty(), entries_view(entries@), leader@),
            r.1@.map_values(|e: KeymapError| entry_error_view(e)) == overlay_errors(
                entries_view(entries@),
                leader@,
            ),
    {
        let mut keymap = Self::new(leader);
        let errors = keymap.overlay(entries);
        (keymap, errors)
    }

    /// Bind more `(key sequence, command name)` pairs onto this keymap,
    /// replacing the command of any sequence that is bound already. Returns
    /// the errors found in *these* entries only. The leader is this keymap's
    /// own, so a mode table sees the same `<leader>` as the table it extends.
    pub fn overlay(&mut self, entries: &[(&str, &str)]) -> (errors: Vec<KeymapError>)
        requires
            old(self).wf(),
        ensures
            final(self).wf(),
            final(self).leader_view() == old(self).leader_view(),
            final(self)@ == overlay_map(old(self)@, entries_view(entries@), old(self).leader_view()),
            errors@.map_values(|e: KeymapError| entry_error_view(e)) == overlay_errors(
                entries_view(entries@),
                old(self).leader_view(),
            ),
    {
        let ghost ev = entries_view(entries@);
        let ghost l = self.leader@;
        let ghost m0 = self@;
        let mut errors: Vec<KeymapError> = Vec::new();
        let mut i: usize = 0;
        assert(ev.skip(0) =~= ev);
        assert(errors@.map_values(|e: KeymapError| entry_error_view(e)) + overlay_errors(ev, l)
            =~= overlay_errors(ev, l));
        while i < entries.len()
            invariant
                self.wf(),
                self.leader@ == l,
                ev == entries_view(entries@),
                i <= entries@.len(),
                overlay_map(m0, ev, l) == overlay_map(self@, ev.skip(i as int), l),
                overlay_errors(ev, l) == errors@.map_values(|e: KeymapError| entry_error_view(e))
                    + overlay_errors(ev.skip(i as int), l),
            decreases entries@.len() - i,
        {
            let (sequence, name) = entries[i];
            let ghost e = ev[i as int];
            assert(e == (sequence@, name@));
            let ghost rest = ev.skip(i as int);
            assert(rest[0] == e);
            assert(rest.skip(1) =~= ev.skip(i + 1));
            let ghost before = errors@.map_values(|e: KeymapError| entry_error_view(e));
            match parse_sequence_with_leader(sequence, self.leader.as_slice()) {
                Ok(chords) => {
                    match Command::from_name(name) {
                        Ok(command) => {
                            proof {
                                crate::command::lemma_names_distinct(
                                    command,
                                    choose|c: Command| command_name(c) == name@,
                                );
                            }
                            self.bind(chords.as_slice(), command);
                            assert(overlay_errors(rest, l) == overlay_errors(rest.skip(1), l)) by {
                                assert(Seq::<EntryError>::empty() + overlay_errors(rest.skip(1), l)
                                    =~= overlay_errors(rest.skip(1), l));
                            }
                        },
                        Err(source) => {
                            let err = KeymapError::Command { sequence: owned(sequence), source };
                            errors.push(err);
                            assert(errors@.map_values(|e: KeymapError| entry_error_view(e))
                                =~= before.push(entry_error_view(err)));
                            assert(before.push(entry_error_view(err)) + overlay_errors(
                                rest.skip(1),
                                l,
                            ) =~= before + (seq![entry_error_view(err)] + overlay_errors(
                                rest.skip(1),
                                l,
                            )));
                        },
                    }
                },
                Err(e) => {
                    let err = KeymapError::Key(e);
                    errors.push(err);
                    assert(errors@.map_values(|e: KeymapError| entry_error_view(e)) =~= before.push(
                        entry_error_view(err),
                    ));
                    assert(before.push(entry_error_view(err)) + overlay_errors(rest.skip(1), l)
                        =~= before + (seq![entry_error_view(err)] + overlay_errors(
                        rest.skip(1),
                        l,
                    )));
                },
            }
            i = i + 1;
        }
        assert(ev.skip(entries@.len() as int) =~= Seq::<(Seq<char>, Seq<char>)>::empty());
        assert(errors@.map_values(|e: KeymapError| entry_error_view(e)) + Seq::<
            EntryError,
        >::empty() =~= errors@.map_values(|e: KeymapError| entry_error_view(e)));
        errors
    }

    /// Bind `chords` to `command`, replacing any command bound to it.
    pub fn bind(&mut self, chords: &[Chord], command: Command)
        requires
            old(self).wf(),
        ensures
            final(self).wf(),
            final(self).leader_view() == old(self).leader_view(),
            final(self)@ == old(self)@.insert(chords@, command),
    {
        let ghost old_bs = self.bindings@;
        let mut i: usize = 0;
        while i < self.bindings.len()
            invariant
                self.bindings@ == old_bs,
                self.leader@ == old(self).leader@,
                old(self).bindings@ == old_bs,
                distinct_sequences(old_bs),
                i <= old_bs.len(),
                forall|k: int| 0 <= k < i ==> old_bs[k].0@ != chords@,
            decreases old_bs.len() - i,
        {
            if chords_eq(self.bindings[i].0.as_slice(), chords) {
                let ghost idx = i as int;
                self.bindings.set(i, (copy_chords(chords), command));
                proof {
                    let bs = self.bindings@;
                    assert forall|a: int, b: int|
                        0 <= a < bs.len() && 0 <= b < bs.len() && a != b implies #[trigger] bs[a].0@
                        != #[trigger] bs[b].0@ by {
                        if a != idx && b != idx {
                            assert(bs[a] == old_bs[a] && bs[b] == old_bs[b]);
                        } else if a == idx {
                            assert(bs[b] == old_bs[b]);
                            assert(old_bs[idx].0@ == chords@);
                            assert(old_bs[b].0@ != old_bs[idx].0@);
                        } else {
                            assert(bs[a] == old_bs[a]);
                            assert(old_bs[idx].0@ == chords@);
                            assert(old_bs[a].0@ != old_bs[idx].0@);
                        }
                    }
                    assert forall|p: Seq<Chord>| #![auto]
                        bindings_map(bs).contains_key(p) == bindings_map(old_bs).insert(
                            chords@,
                            command,
                        ).contains_key(p) by {
                        if bindings_map(old_bs).contains_key(p) && p != chords@ {
                            let k = choose|k: int| 0 <= k < old_bs.len() && #[trigger] old_bs[k].0@ == p;
                            assert(bs[k] == old_bs[k]);
                        }
                        if bindings_map(bs).contains_key(p) && p != chords@ {
                            let k = choose|k: int| 0 <= k < bs.len() && #[trigger] bs[k].0@ == p;
                            assert(bs[k] == old_bs[k]);
                        }
                        lemma_bindings_map_at(bs, idx);
                    }
                    assert forall|p: Seq<Chord>|
                        #[trigger] bindings_map(bs).contains_key(p) implies bindings_map(bs)[p]
                        == bindings_map(old_bs).insert(chords@, command)[p] by {
                        let k = choose|k: int| 0 <= k < bs.len() && #[trigger] bs[k].0@ == p;
                        lemma_bindings_map_at(bs, k);
                        if k != idx {
                            assert(bs[k] == old_bs[k]);
                            lemma_bindings_map_at(old_bs, k);
                        }
                    }
                    assert(bindings_map(bs) =~= bindings_map(old_bs).insert(chords@, command));
                }
                return;
            }
            i = i + 1;
        }
        self.bindings.push((copy_chords(chords), command));
        proof {
            let bs = self.bindings@;
            let n = old_bs.len() as int;
            assert forall|a: int, b: int|
                0 <= a < bs.len() && 0 <= b < bs.len() && a != b implies #[trigger] bs[a].0@
                != #[trigger] bs[b].0@ by {
                if a < n && b < n {
                    assert(bs[a] == old_bs[a] && bs[b] == old_bs[b]);
                } else if a == n {
                    assert(bs[b] == old_bs[b]);
                } else {
                    assert(bs[a] == old_bs[a]);
                }
            }
            assert forall|p: Seq<Chord>| #![auto]
                bindings_map(bs).contains_key(p) == bindings_map(old_bs).insert(
                    chords@,
                    command,
                ).contains_key(p) by {
                if bindings_map(old_bs).contains_key(p) {
                    let k = choose|k: int| 0 <= k < old_bs.len() && #[trigger] old_bs[k].0@ == p;
                    assert(bs[k] == old_bs[k]);
                }
                if bindings_map(bs).contains_key(p) && p != chords@ {
                    let k = choose|k: int| 0 <= k < bs.len() && #[trigger] bs[k].0@ == p;
                    assert(bs[k] == old_bs[k]);
                }
                lemma_bindings_map_at(bs, n);
            }
            assert forall|p: Seq<Chord>|
                #[trigger] bindings_map(bs).contains_key(p) implies bindings_map(bs)[p]
                == bindings_map(old_bs).insert(chords@, command)[p] by {
                let k = choose|k: int| 0 <= k < bs.len() && #[trigger] bs[k].0@ == p;
                lemma_bindings_map_at(bs, k);
                if k != n {
                    assert(bs[k] == old_bs[k]);
                    lemma_bindings_map_at(old_bs, k);
                }
            }
            assert(bindings_map(bs) =~= bindings_map(old_bs).insert(chords@, command));
        }
    }

    /// Every effective binding after all overlays have been applied, each
    /// sequence once. These are the keymap's own contents, so invalid
    /// entries and bindings superseded by an equivalent spelling cannot leak
    /// into command-discovery surfaces.
    pub fn bindings(&self) -> (r: Vec<(Vec<Chord>, Command)>)
        requires
            self.wf(),
        ensures
            distinct_sequences(r@),
            bindings_map(r@) == self@,
    {
        let mut out: Vec<(Vec<Chord>, Command)> = Vec::new();
        let mut i: usize = 0;
        while i < self.bindings.len()
            invariant
                i <= self.bindings@.len(),
                out@.len() == i,
                forall|k: int| 0 <= k < i ==> #[trigger] out@[k].0@ == self.bindings@[k].0@
                    && out@[k].1 == self.bindings@[k].1,
            decreases self.bindings@.len() - i,
        {
            let (chords, command) = &self.bindings[i];
            let ghost before = out@;
            out.push((copy_chords(chords.as_slice()), *command));
            assert forall|k: int| 0 <= k < i + 1 implies #[trigger] out@[k].0@
                == self.bindings@[k].0@ && out@[k].1 == self.bindings@[k].1 by {
                if k < i {
                    assert(out@[k] == before[k]);
                }
            }
            i = i + 1;
        }
        proof {
            let bs = self.bindings@;
            assert forall|a: int, b: int|
                0 <= a < out@.len() && 0 <= b < out@.len() && a != b implies #[trigger] out@[a].0@
                != #[trigger] out@[b].0@ by {
                assert(out@[a].0@ == bs[a].0@ && out@[b].0@ == bs[b].0@);
            }
            assert forall|p: Seq<Chord>| #![auto]
                bindings_map(out@).contains_key(p) == bindings_map(bs).contains_key(p) by {
                if bindings_map(out@).contains_key(p) {
                    let k = choose|k: int| 0 <= k < out@.len() && #[trigger] out@[k].0@ == p;
                    assert(bs[k].0@ == p);
                }
                if bindings_map(bs).contains_key(p) {
                    let k = choose|k: int| 0 <= k < bs.len() && #[trigger] bs[k].0@ == p;
                    assert(out@[k].0@ == p);
                }
            }
            assert forall|p: Seq<Chord>|
                #[trigger] bindings_map(out@).contains_key(p) implies bindings_map(out@)[p]
                == bindings_map(bs)[p] by {
                let k = choose|k: int| 0 <= k < out@.len() && #[trigger] out@[k].0@ == p;
                lemma_bindings_map_at(out@, k);
                lemma_bindings_map_at(bs, k);
            }
            assert(bindings_map(out@) =~= bindings_map(bs));
        }
        out
    }

    /// Canonical user-facing spelling of one sequence. A leading leader is
    /// folded back to `<leader>`, even though the keymap holds its expanded
    /// chords; named-key aliases come out in their canonical spelling.
    pub fn display_sequence(&self, chords: &[Chord]) -> (s: String)
        ensures
            s@ == shown_sequence(self.leader_view(), chords@),
    {
        let (mut out, start) = if self.leader.len() > 0 && chords_prefix_of(
            self.leader.as_slice(),
            chords,
        ) {
            (owned("<leader>"), self.leader.len())
        } else {
            (String::new(), 0)
        };
        let ghost prefix = out@;
        let mut i = start;
        proof {
            lemma_sequence_text_skip(chords@, start as int);
        }
        while i < chords.len()
            invariant
                start <= i <= chords@.len(),
                out@ + sequence_text(chords@.skip(i as int)) == prefix + sequence_text(
                    chords@.skip(start as int),
                ),
            decreases chords@.len() - i,
        {
            let piece = chords[i].to_key_string();
            proof {
                lemma_sequence_text_skip(chords@, i as int);
            }
            out.append(piece.as_str());
            i = i + 1;
            assert(out@ + sequence_text(chords@.skip(i as int)) =~= prefix + sequence_text(
                chords@.skip(start as int),
            ));
        }
        assert(chords@.skip(chords@.len() as int) =~= Seq::<Chord>::empty());
        assert(out@ + Seq::<char>::empty() =~= out@);
        assert(chords@.skip(0) =~= chords@);
        out
    }

    /// The node of the keymap at `chords`, if some binding passes through it.
    fn lookup(&self, chords: &[Chord]) -> (r: Option<Node>)
        requires
            self.wf(),
        ensures
            r is Some == has_node(self@, chords@),
            r matches Some(n) ==> n.command == command_at_spec(self@, chords@) && n.has_children
                == has_children(self@, chords@),
    {
        let mut found = chords.len() == 0;
        let mut command: Option<Command> = None;
        let mut children = false;
        let mut i: usize = 0;
        let ghost bs = self.bindings@;
        while i < self.bindings.len()
            invariant
                bs == self.bindings@,
                distinct_sequences(bs),
                i <= bs.len(),
                found == (chords@.len() == 0 || exists|k: int|
                    0 <= k < i && is_prefix(chords@, #[trigger] bs[k].0@)),
                children == exists|k: int|
                    0 <= k < i && is_prefix(chords@, #[trigger] bs[k].0@) && bs[k].0@.len()
                        > chords@.len(),
                command matches Some(c) ==> exists|k: int|
                    0 <= k < i && #[trigger] bs[k].0@ == chords@ && bs[k].1 == c,
                command is None ==> forall|k: int| 0 <= k < i ==> #[trigger] bs[k].0@ != chords@,
            decreases bs.len() - i,
        {
            let b = self.bindings[i].0.as_slice();
            proof {
                lemma_prefix_refl(chords@);
            }
            if chords_prefix_of(chords, b) {
                found = true;
                if b.len() > chords.len() {
                    children = true;
                } else {
                    assert(bs[i as int].0@ =~= chords@);
                    command = Some(self.bindings[i].1);
                }
            }
            i = i + 1;
        }
        proof {
            let m = self@;
            if found && chords@.len() > 0 {
                let k = choose|k: int| 0 <= k < bs.len() && is_prefix(chords@, #[trigger] bs[k].0@);
                lemma_bindings_map_at(bs, k);
            }
            if has_node(m, chords@) && chords@.len() > 0 {
                let b = choose|b: Seq<Chord>| #[trigger] m.contains_key(b) && is_prefix(chords@, b);
                let k = choose|k: int| 0 <= k < bs.len() && #[trigger] bs[k].0@ == b;
                assert(is_prefix(chords@, bs[k].0@));
            }
            if children {
                let k = choose|k: int|
                    0 <= k < bs.len() && is_prefix(chords@, #[trigger] bs[k].0@) && bs[k].0@.len()
                        > chords@.len();
                lemma_bindings_map_at(bs, k);
            }
            if has_children(m, chords@) {
                let b = choose|b: Seq<Chord>|
                    #[trigger] m.contains_key(b) && is_prefix(chords@, b) && b.len() > chords@.len();
                let k = choose|k: int| 0 <= k < bs.len() && #[trigger] bs[k].0@ == b;
                assert(is_prefix(chords@, bs[k].0@));
            }
            match command {
                Some(c) => {
                    let k = choose|k: int| 0 <= k < bs.len() && #[trigger] bs[k].0@ == chords@ && bs[k].1 == c;
                    lemma_bindings_map_at(bs, k);
                },
                None => {
                    if m.contains_key(chords@) {
                        let k = choose|k: int| 0 <= k < bs.len() && #[trigger] bs[k].0@ == chords@;
                        assert(bs[k].0@ != chords@);
                    }
                },
            }
        }
        if found {
            Some(Node { command, has_children: children })
        } else {
            None
        }
    }

    /// The command bound to exactly `chords`, if any.
    fn command_at(&self, chords: &[Chord]) -> (r: Option<Command>)
        requires
            self.wf(),
        ensures
            r == command_at_spec(self@, chords@),
    {
        match self.lookup(chords) {
            Some(node) => node.command,
            None => {
                proof {
                    lemma_prefix_refl(chords@);
                }
                None
            },
        }
    }
}

/// The text of a chord sequence from position `i` is the text of the chord
/// there followed by the text after it.
proof fn lemma_sequence_text_skip(cs: Seq<Chord>, i: int)
    requires
        0 <= i <= cs.len(),
    ensures
        i < cs.len() ==> sequence_text(cs.skip(i)) == chord_text(cs[i]) + sequence_text(
            cs.skip(i + 1),
        ),
{
    if i < cs.len() {
        assert(cs.skip(i).skip(1) =~= cs.skip(i + 1));
    }
}

/// Every sequence is a prefix of itself.
proof fn lemma_prefix_refl<T>(s: Seq<T>)
    ensures
        is_prefix(s, s),
{
    assert(s.take(s.len() as int) =~= s);
}

/// Whether two chord slices are equal.
fn chords_eq(a: &[Chord], b: &[Chord]) -> (r: bool)
    ensures
        r == (a@ == b@),
{
    if a.len() != b.len() {
        return false;
    }
    let r = chords_prefix_of(a, b);
    assert(b@.take(b@.len() as int) =~= b@);
    r
}


/// Result of feeding one chord into [`InputState::handle`].
#[derive(Debug, Clone, Copy, PartialEq, Eq)]
pub enum KeyOutcome {
    /// The chord extended a pending count or sequence; wait for more input.
    Pending,
    /// A binding resolved.
    Command { command: Command, count: Option<u32> },
    /// The sequence matched nothing; pending state was reset.
    Unmatched,
}

/// Accumulates count prefixes and chord sequences between key presses.
#[derive(Debug, Default)]
pub struct InputState {
    count: Option<u32>,
    pending: Vec<Chord>,
    replay: VecDeque<Chord>,
}

/// The state of the input machine: the count typed so far, the chords of
/// the partial sequence, and the chords queued for replay.
pub struct InputView {
    pub count: Option<u32>,
    pub pending: Seq<Chord>,
    pub replay: Seq<Chord>,
}

impl View for InputState {
    type V = InputView;

    closed spec fn view(&self) -> InputView {
        InputView { count: self.count, pending: self.pending@, replay: self.replay@ }
    }
}

/// The machine with nothing buffered.
pub open spec fn cleared() -> InputView {
    InputView { count: None, pending: Seq::empty(), replay: Seq::empty() }
}

/// Whether a count or a partial sequence is buffered.
pub open spec fn spec_has_pending(s: InputView) -> bool {
    s.count is Some || s.pending.len() > 0
}

/// The value of a decimal digit character.
pub open spec fn digit_of(c: char) -> Option<u32> {
    if '0' <= c && c <= '9' {
        Some(((c as u32) - ('0' as u32)) as u32)
    } else {
        None
    }
}

/// The count after typing digit `d`: ten times the count so far plus `d`,
/// saturating at the largest `u32`.
pub open spec fn extended_count(count: Option<u32>, d: u32) -> u32 {
    let so_far: int = match count {
        Some(n) => n as int,
        None => 0,
    };
    let times_ten: int = if so_far * 10 > u32::MAX {
        u32::MAX as int
    } else {
        so_far * 10
    };
    if times_ten + d > u32::MAX {
        u32::MAX
    } else {
        (times_ten + d) as u32
    }
}

/// Whether `chord` typed with nothing pending extends the count: an
/// unmodified digit that starts no binding, and not a leading zero.
pub open spec fn extends_count(m: Map<Seq<Chord>, Command>, s: InputView, chord: Chord) -> bool {
    &&& s.pending.len() == 0
    &&& !chord.ctrl
    &&& !chord.alt
    &&& chord.key matches Key::Char(c)
    &&& digit_of(c) matches Some(d)
    &&& !has_node(m, seq![chord])
    &&& !(d == 0 && s.count is None)
}

/// The longest length `l` with `1 <= l <= max_len` such that the first `l`
/// chords of `p` are bound.
pub open spec fn longest_bound_prefix(m: Map<Seq<Chord>, Command>, p: Seq<Chord>, max_len: int) -> Option<
    int,
>
    decreases max_len,
{
    if max_len <= 0 {
        None
    } else if m.contains_key(p.take(max_len)) {
        Some(max_len)
    } else {
        longest_bound_prefix(m, p, max_len - 1)
    }
}

/// Fire the longest bound prefix of `p` no longer than `max_len`, queueing
/// the rest of `p` for replay; with no such prefix, reset everything.
pub open spec fn fire_prefix(m: Map<Seq<Chord>, Command>, s: InputView, p: Seq<Chord>, max_len: int) -> (
    InputView,
    KeyOutcome,
) {
    match longest_bound_prefix(m, p, max_len) {
        Some(l) => (
            InputView { count: None, pending: Seq::empty(), replay: s.replay + p.skip(l) },
            KeyOutcome::Command { command: m[p.take(l)], count: s.count },
        ),
        None => (cleared(), KeyOutcome::Unmatched),
    }
}

/// One key press: the next state and the outcome.
pub open spec fn handle_step(m: Map<Seq<Chord>, Command>, s: InputView, chord: Chord) -> (
    InputView,
    KeyOutcome,
) {
    if chord == (Chord { key: Key::Named(NamedKey::Escape), ctrl: false, alt: false })
        && spec_has_pending(s) {
        (cleared(), KeyOutcome::Pending)
    } else if extends_count(m, s, chord) {
        let d = digit_of(chord.key->Char_0)->Some_0;
        (
            InputView { count: Some(extended_count(s.count, d)), pending: s.pending, replay: s.replay },
            KeyOutcome::Pending,
        )
    } else {
        let p = s.pending.push(chord);
        if !has_node(m, p) {
            fire_prefix(m, s, p, p.len() - 1)
        } else if m.contains_key(p) && !has_children(m, p) {
            (
                InputView { count: None, pending: Seq::empty(), replay: s.replay },
                KeyOutcome::Command { command: m[p], count: s.count },
            )
        } else {
            (InputView { count: s.count, pending: p, replay: s.replay }, KeyOutcome::Pending)
        }
    }
}

/// A pause: the next state and the outcome.
pub open spec fn timeout_step(m: Map<Seq<Chord>, Command>, s: InputView) -> (InputView, KeyOutcome) {
    if s.pending.len() == 0 {
        (s, KeyOutcome::Pending)
    } else {
        fire_prefix(m, s, s.pending, s.pending.len() as int)
    }
}

/// How [`Keymap::display_sequence`] writes `chords` for a keymap whose
/// leader is `leader`: a leading leader folds back to `<leader>`.
pub open spec fn shown_sequence(leader: Seq<Chord>, chords: Seq<Chord>) -> Seq<char> {
    if leader.len() > 0 && is_prefix(leader, chords) {
        "<leader>"@ + sequence_text(chords.skip(leader.len() as int))
    } else {
        sequence_text(chords)
    }
}

/// One call of [`InputState::next_replay`]: the first queued chord comes
/// off the queue, and nothing else changes.
pub open spec fn replay_step(s: InputView) -> (InputView, Option<Chord>) {
    if s.replay.len() == 0 {
        (s, None)
    } else {
        (InputView { replay: s.replay.skip(1), ..s }, Some(s.replay[0]))
    }
}

/// The state after `k` calls of [`InputState::next_replay`].
pub open spec fn after_replays(s: InputView, k: nat) -> InputView
    decreases k,
{
    if k == 0 {
        s
    } else {
        replay_step(after_replays(s, (k - 1) as nat)).0
    }
}

/// The value of an ASCII decimal digit.
fn to_digit(c: char) -> (r: Option<u32>)
    ensures
        r == digit_of(c),
{
    if '0' <= c && c <= '9' {
        Some((c as u32) - ('0' as u32))
    } else {
        None
    }
}

impl InputState {
    /// A machine with nothing buffered.
    pub fn new() -> (s: Self)
        ensures
            s@ == cleared(),
    {
        InputState { count: None, pending: Vec::new(), replay: VecDeque::new() }
    }

    /// True when a count or partial sequence is buffered. The replay queue
    /// does not count: it is drained within the same key press.
    pub fn has_pending(&self) -> (r: bool)
        ensures
            r == spec_has_pending(self@),
    {
        self.count.is_some() || self.pending.len() > 0
    }

    /// True when a *partial sequence* is buffered, the case a pause can
    /// resolve. A bare count does not qualify: counts never time out.
    pub fn has_pending_sequence(&self) -> (r: bool)
        ensures
            r == (self@.pending.len() > 0),
    {
        self.pending.len() > 0
    }

    /// End the wait without another key press, because the caller's timer
    /// fired. Resolves like a miss in [`handle`](Self::handle), except that
    /// the full pending sequence is itself a candidate, so a sequence that is
    /// a binding *and* a prefix finally fires on its own. A bare count is left
    /// alone; a sequence with no bound prefix is dropped.
    pub fn timeout(&mut self, keymap: &Keymap) -> (o: KeyOutcome)
        requires
            keymap.wf(),
        ensures
            (final(self)@, o) == timeout_step(keymap@, old(self)@),
    {
        if self.pending.len() == 0 {
            return KeyOutcome::Pending;
        }
        let n = self.pending.len();
        self.fire_longest_prefix(keymap, n)
    }

    /// Fire the longest bound prefix of the pending chords no longer than
    /// `max_len` and queue the rest for replay, or reset when there is none.
    fn fire_longest_prefix(&mut self, keymap: &Keymap, max_len: usize) -> (o: KeyOutcome)
        requires
            keymap.wf(),
            max_len <= old(self)@.pending.len(),
        ensures
            (final(self)@, o) == fire_prefix(
                keymap@,
                old(self)@,
                old(self)@.pending,
                max_len as int,
            ),
    {
        let ghost p = self.pending@;
        let mut len = max_len;
        while len > 0
            invariant
                len <= max_len <= p.len(),
                self.pending@ == p,
                self@ == old(self)@,
                keymap.wf(),
                longest_bound_prefix(keymap@, p, max_len as int) == longest_bound_prefix(
                    keymap@,
                    p,
                    len as int,
                ),
            decreases len,
        {
            let prefix = chord_prefix(self.pending.as_slice(), len);
            match keymap.command_at(prefix.as_slice()) {
                Some(command) => {
                    let count = self.count;
                    let ghost replay0 = self.replay@;
                    let mut k = len;
                    while k < self.pending.len()
                        invariant
                            len <= k <= p.len(),
                            self.pending@ == p,
                            self.replay@ == replay0 + p.subrange(len as int, k as int),
                        decreases p.len() - k,
                    {
                        self.replay.push_back(self.pending[k]);
                        k = k + 1;
                        assert(self.replay@ =~= replay0 + p.subrange(len as int, k as int));
                    }
                    assert(p.subrange(len as int, p.len() as int) =~= p.skip(len as int));
                    self.count = None;
                    self.pending.clear();
                    assert(self.pending@ =~= Seq::<Chord>::empty());
                    assert(prefix@ == p.take(len as int));
                    assert(longest_bound_prefix(keymap@, p, len as int) == Some(len as int));
                    return KeyOutcome::Command { command, count };
                },
                None => {},
            }
            len = len - 1;
        }
        self.clear();
        KeyOutcome::Unmatched
    }

    /// The next chord to re-feed after a longest-prefix fallback fired a
    /// command, or `None` when the queue is empty. Callers re-select the
    /// keymap before each call, so a mode-changing command takes effect on
    /// the chords that follow it.
    pub fn next_replay(&mut self) -> (c: Option<Chord>)
        ensures
            (final(self)@, c) == replay_step(old(self)@),
            final(self)@.count == old(self)@.count,
            final(self)@.pending == old(self)@.pending,
            old(self)@.replay.len() == 0 ==> c is None && final(self)@.replay == old(self)@.replay,
            old(self)@.replay.len() > 0 ==> c == Some(old(self)@.replay[0]) && final(self)@.replay
                == old(self)@.replay.skip(1),
    {
        let c = self.replay.pop_front();
        proof {
            if old(self)@.replay.len() > 0 {
                assert(old(self)@.replay.subrange(1, old(self)@.replay.len() as int)
                    =~= old(self)@.replay.skip(1));
            }
        }
        c
    }

    /// Drop the chords waiting to be replayed, without touching a pending
    /// count or sequence. Used when a command interrupts the drain, so the
    /// leftovers cannot fire after a dialog.
    pub fn clear_replay(&mut self)
        ensures
            final(self)@ == (InputView {
                count: old(self)@.count,
                pending: old(self)@.pending,
                replay: Seq::empty(),
            }),
    {
        self.replay.clear();
    }

    /// Human-readable pending input for the status line, e.g. `12g`.
    pub fn pending_display(&self) -> (s: String)
        ensures
            s@ == (match self@.count {
                Some(n) => decimal(n as nat),
                None => Seq::empty(),
            }) + sequence_text(self@.pending),
    {
        let mut out = match self.count {
            Some(n) => decimal_string(n),
            None => String::new(),
        };
        let ghost prefix = out@;
        let mut i: usize = 0;
        assert(self.pending@.skip(0) =~= self.pending@);
        while i < self.pending.len()
            invariant
                i <= self.pending@.len(),
                out@ + sequence_text(self.pending@.skip(i as int)) == prefix + sequence_text(
                    self.pending@,
                ),
            decreases self.pending@.len() - i,
        {
            let piece = self.pending[i].to_key_string();
            proof {
                lemma_sequence_text_skip(self.pending@, i as int);
            }
            out.append(piece.as_str());
            i = i + 1;
            assert(out@ + sequence_text(self.pending@.skip(i as int)) =~= prefix + sequence_text(
                self.pending@,
            ));
        }
        assert(self.pending@.skip(self.pending@.len() as int) =~= Seq::<Chord>::empty());
        assert(out@ + Seq::<char>::empty() =~= out@);
        out
    }

    /// Forget the count, the partial sequence and the replay queue.
    pub fn clear(&mut self)
        ensures
            final(self)@ == cleared(),
    {
        self.count = None;
        self.pending.clear();
        self.replay.clear();
        assert(self.pending@ =~= Seq::<Chord>::empty());
        assert(self.replay@ =~= Seq::<Chord>::empty());
    }

    /// Feed one key press through the state machine.
    pub fn handle(&mut self, keymap: &Keymap, chord: Chord) -> (o: KeyOutcome)
        requires
            keymap.wf(),
        ensures
            (final(self)@, o) == handle_step(keymap@, old(self)@, chord),
    {
        // Escape always clears buffered input first; only a bare Escape
        // reaches the keymap (where it is bound to `cancel` by default).
        if chord == Chord::named(NamedKey::Escape) && self.has_pending() {
            self.clear();
            return KeyOutcome::Pending;
        }
        // Digits build up a count prefix, unless the digit itself starts a
        // bound sequence. `0` only counts once a count is in progress,
        // mirroring Vim, where a leading 0 is a motion.
        if self.pending.len() == 0 {
            if let Key::Char(c) = chord.key {
                if let Some(digit) = to_digit(c) {
                    let one = [chord];
                    assert(one@ == seq![chord]);
                    let starts_binding = !chord.ctrl && !chord.alt && keymap.lookup(
                        &one,
                    ).is_some();
                    let leading_zero = digit == 0 && self.count.is_none();
                    if !chord.ctrl && !chord.alt && !starts_binding && !leading_zero {
                        let so_far = match self.count {
                            Some(n) => n,
                            None => 0,
                        };
                        let times_ten = match so_far.checked_mul(10) {
                            Some(v) => v,
                            None => u32::MAX,
                        };
                        self.count = Some(times_ten.saturating_add(digit));
                        assert(digit_of(c) == Some(digit));
                        assert(self.count == Some(extended_count(old(self)@.count, digit)));
                        return KeyOutcome::Pending;
                    }
                }
            }
        }
        self.pending.push(chord);
        match keymap.lookup(self.pending.as_slice()) {
            None => {
                // Longest-prefix fallback: the pending sequence went nowhere,
                // but a proper prefix of it may be a complete binding.
                let n = self.pending.len() - 1;
                self.fire_longest_prefix(keymap, n)
            },
            Some(node) => {
                match node.command {
                    Some(command) => {
                        if !node.has_children {
                            let count = self.count;
                    self.count = None;
                            self.pending.clear();
                            assert(self.pending@ =~= Seq::<Chord>::empty());
                            return KeyOutcome::Command { command, count };
                        }
                        // Both a complete binding and a prefix of a longer one:
                        // wait for more input.
                    },
                    None => {},
                }
                KeyOutcome::Pending
            },
        }
    }
}

/// The longest bound prefix found is bound and within range.
proof fn lemma_longest_bound_prefix(m: Map<Seq<Chord>, Command>, p: Seq<Chord>, max_len: int)
    ensures
        longest_bound_prefix(m, p, max_len) matches Some(l) ==> 1 <= l <= max_len && m.contains_key(
            p.take(l),
        ),
    decreases max_len,
{
    if max_len > 0 && !m.contains_key(p.take(max_len)) {
        lemma_longest_bound_prefix(m, p, max_len - 1);
    }
}

/// Whatever key is pressed, and whether a pause ends the wait, the partial
/// sequence the machine holds afterwards is still the beginning of some
/// binding of the keymap (or empty), provided it was before: the machine
/// never waits on a sequence that can no longer complete.
pub proof fn lemma_pending_stays_live(m: Map<Seq<Chord>, Command>, s: InputView, chord: Chord)
    requires
        has_node(m, s.pending),
    ensures
        has_node(m, handle_step(m, s, chord).0.pending),
        has_node(m, timeout_step(m, s).0.pending),
{
}

/// When a key press fires a command, nothing typed is lost: the pending
/// chords plus the new one are a bound sequence (the one whose command
/// fires) followed by exactly the chords added to the replay queue, and the
/// command takes the count typed before it. The machine is left with no
/// count and no partial sequence.
pub proof fn lemma_fired_command_accounts_for_every_chord(
    m: Map<Seq<Chord>, Command>,
    s: InputView,
    chord: Chord,
)
    ensures
        handle_step(m, s, chord).1 matches KeyOutcome::Command { command, count } ==> {
            let next = handle_step(m, s, chord).0;
            let typed = s.pending.push(chord);
            &&& count == s.count
            &&& next.count is None
            &&& next.pending.len() == 0
            &&& exists|l: int|
                1 <= l <= typed.len() && #[trigger] m.contains_key(typed.take(l)) && m[typed.take(l)]
                    == command && next.replay == s.replay + typed.skip(l)
        },
{
    let typed = s.pending.push(chord);
    if handle_step(m, s, chord).1 is Command {
        let next = handle_step(m, s, chord).0;
        if !has_node(m, typed) {
            lemma_longest_bound_prefix(m, typed, typed.len() - 1);
        } else {
            assert(typed.take(typed.len() as int) =~= typed);
            assert(typed.skip(typed.len() as int) =~= Seq::<Chord>::empty());
            assert(s.replay + typed.skip(typed.len() as int) =~= s.replay);
            assert(m.contains_key(typed.take(typed.len() as int)));
        }
    }
}

/// A pause that fires a command likewise accounts for every pending chord:
/// they are a bound sequence followed by exactly the chords queued for
/// replay. A pause with no partial sequence changes nothing, so a bare count
/// never times out.
pub proof fn lemma_timeout_accounts_for_every_chord(m: Map<Seq<Chord>, Command>, s: InputView)
    ensures
        s.pending.len() == 0 ==> timeout_step(m, s) == (s, KeyOutcome::Pending),
        timeout_step(m, s).1 matches KeyOutcome::Command { command, count } ==> {
            let next = timeout_step(m, s).0;
            &&& count == s.count
            &&& next.count is None
            &&& next.pending.len() == 0
            &&& exists|l: int|
                1 <= l <= s.pending.len() && #[trigger] m.contains_key(s.pending.take(l))
                    && m[s.pending.take(l)] == command && next.replay == s.replay + s.pending.skip(l)
        },
{
    lemma_longest_bound_prefix(m, s.pending, s.pending.len() as int);
}

/// `k` calls of [`InputState::next_replay`] take the first `k` chords off
/// the queue and leave the count and the partial sequence alone.
proof fn lemma_after_replays(s: InputView, k: nat)
    requires
        k <= s.replay.len(),
    ensures
        after_replays(s, k) == (InputView { replay: s.replay.skip(k as int), ..s }),
    decreases k,
{
    if k == 0 {
        assert(s.replay.skip(0) =~= s.replay);
    } else {
        lemma_after_replays(s, (k - 1) as nat);
        assert(s.replay.skip(k - 1).skip(1) =~= s.replay.skip(k as int));
    }
}

/// After a key press fires a command with nothing queued before it, the
/// calls of [`InputState::next_replay`] that follow hand back, one per call
/// and in the order they were typed, exactly the typed chords after the
/// bound sequence that fired, and then `None`: the fallback loses no key and
/// replays none twice.
pub proof fn lemma_fallback_replays_the_rest(m: Map<Seq<Chord>, Command>, s: InputView, chord: Chord)
    requires
        s.replay.len() == 0,
    ensures
        handle_step(m, s, chord).1 matches KeyOutcome::Command { command, count } ==> {
            let next = handle_step(m, s, chord).0;
            let typed = s.pending.push(chord);
            exists|l: int|
                1 <= l <= typed.len() && #[trigger] m.contains_key(typed.take(l)) && m[typed.take(l)]
                    == command && (forall|i: nat|
                    i < typed.len() - l ==> #[trigger] replay_step(after_replays(next, i)).1 == Some(
                        typed[l + i],
                    )) && replay_step(after_replays(next, (typed.len() - l) as nat)).1 is None
        },
{
    lemma_fired_command_accounts_for_every_chord(m, s, chord);
    if let KeyOutcome::Command { command, count } = handle_step(m, s, chord).1 {
        let next = handle_step(m, s, chord).0;
        let typed = s.pending.push(chord);
        let l = choose|l: int|
            1 <= l <= typed.len() && #[trigger] m.contains_key(typed.take(l)) && m[typed.take(l)]
                == command && next.replay == s.replay + typed.skip(l);
        assert(next.replay =~= typed.skip(l));
        assert forall|i: nat| i < typed.len() - l implies #[trigger] replay_step(
            after_replays(next, i),
        ).1 == Some(typed[l + i]) by {
            lemma_after_replays(next, i);
        }
        lemma_after_replays(next, (typed.len() - l) as nat);
        assert(m.contains_key(typed.take(l)));
    }
}

/// What [`Keymap::display_sequence`] writes reads back as the same chords
/// when parsed with the same leader, whether or not it folded a leading
/// leader into `<leader>`; it starts with `<leader>` whenever the chords
/// start with a non-empty leader.
pub proof fn lemma_shown_sequence_round_trips(leader: Seq<Chord>, cs: Seq<Chord>)
    requires
        cs.len() > 0,
        forall|i: int| 0 <= i < cs.len() ==> has_spelling(#[trigger] cs[i]),
    ensures
        parse_chars(shown_sequence(leader, cs), Some(leader)) == Ok::<Seq<Chord>, ParseFailure>(cs),
        leader.len() > 0 && is_prefix(leader, cs) ==> is_prefix("<leader>"@, shown_sequence(leader, cs)),
{
    if leader.len() > 0 && is_prefix(leader, cs) {
        reveal_strlit("<leader>");
        let token = seq!['l', 'e', 'a', 'd', 'e', 'r'];
        let tail = cs.skip(leader.len() as int);
        let rest = sequence_text(tail);
        assert("<leader>"@ =~= seq!['<'] + token + seq!['>']);
        assert(ascii_lower_seq(token) =~= token);
        lemma_leader_group(rest, leader, token);
        if tail.len() > 0 {
            assert forall|i: int| 0 <= i < tail.len() implies has_spelling(#[trigger] tail[i]) by {
                assert(tail[i] == cs[i + leader.len()]);
            }
            lemma_display_round_trips(tail, Some(leader));
        } else {
            assert(rest =~= Seq::<char>::empty());
        }
        assert(cs =~= leader + tail);
        let shown = shown_sequence(leader, cs);
        assert(shown.take(8) =~= "<leader>"@);
    } else {
        lemma_display_round_trips(cs, Some(leader));
    }
}
} // verus!
