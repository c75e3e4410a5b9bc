//! The verified core of a keyboard-first PDF reader: the key-chord syntax,
//! the configuration tables and the key tables built from them, the command
//! set, the key-sequence state machine, the render cache, and the caret
//! motion of focus and visual mode (the word, sentence and paragraph rules,
//! the scope a position is highlighted at, and the selection state).

pub mod text;
pub mod keys;
pub mod command;
pub mod input;
pub mod config;
pub mod caret;
pub mod effects;
pub mod render_cache;
pub mod words;
pub mod sentences;
pub mod status;
pub mod selection;
pub mod object_policy;
pub mod paragraphs;
pub mod scopes;
pub mod keymaps;
pub mod span_text;
pub mod execute;
