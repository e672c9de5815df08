//! A fixed-capacity, multi-line text buffer with a caret/selection model and
//! an input-driven edit state machine.
//!
//! Every row holds at most `max_line_len` code points. The [`editor::Editor`]
//! owns the rows, one [`position::Selection`] and a sticky column, and changes
//! them in response to discrete key events. Each operation is specified over a
//! mathematical model ([`model::EditorView`]) and proved against it.

pub mod position;
pub mod std_specs;
pub mod words;
pub mod lines;
pub mod input;
pub mod model;
pub mod editor;
pub mod laws;
