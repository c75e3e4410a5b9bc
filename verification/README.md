# syodep

The core of a keyboard-first PDF reader, written in Verus: every function in
`src/` carries a contract that Verus proves.

- `src/keys.rs`, `src/command.rs`: the key-chord syntax (`g<C-d>`,
  `<leader>w`) and the command set, with their names and descriptions.
- `src/config.rs`, `src/keymaps.rs`, `src/input.rs`: the configuration
  tables, the key tables of every mode built from them, and the state machine
  that turns key presses into commands (counts, prefixes, the pause that
  resolves an ambiguous prefix).
- `src/text.rs`, `src/caret.rs`, `src/words.rs`, `src/sentences.rs`,
  `src/paragraphs.rs`, `src/scopes.rs`, `src/object_policy.rs`: caret motion
  over a document's text. What a word, a sentence and a paragraph are
  (numbers, abbreviations, links, hyphenated compounds, list items, headings,
  tables and footnotes included), what a position covers at each scope, and
  one step of each scope along the reading order.
- `src/selection.rs`, `src/effects.rs`, `src/status.rs`, `src/span_text.rs`:
  the mode and selection state of focus, visual and highlight mode, what the
  shell must do after a key press, the status line, and the text a highlight
  covers.
- `src/execute.rs`: what each command does (the change of mode and
  selection, the effects, and the request on the view or the file, such as
  `{n}G` going to page `n`), and the run of one key press: the command it
  resolves to and the chords a longest-prefix fallback replays, each resolved
  in the mode the previous command left.
- `src/render_cache.rs`: the least-recently-used cache of rendered pages.

`app/` is ordinary Rust around the library: reading and deserialising the
configuration file, the floating-point page layout and geometry (the
zoom and scroll model, column detection, paragraph grouping by line gaps,
goal-column motion and highlight rectangles), and the key loop that carries
out each command's view request before the next replayed key runs. `tests/` exercises the library
from outside, including key-driven scenarios over small pages.
