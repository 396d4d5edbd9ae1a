//! Core of a small terminal text editor: a Unicode-aware line buffer with
//! grapheme-indexed editing, a cursor, and a viewport that follows it.
//!
//! The library holds the text model and the editing rules, each operation
//! with a verified contract. Terminal control, key decoding and file I/O
//! live in the embedding application, which drives this core with plain
//! events and renders the strings it computes.

pub mod document;
pub mod editor;
pub mod graphemes;
pub mod row;
pub mod terminal;

pub use crate::document::Document;
pub use crate::editor::Editor;
pub use crate::editor::Position;
pub use crate::row::Row;
pub use crate::terminal::Size;
