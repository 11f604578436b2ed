//! Core of a minimal terminal emulator: an escape-sequence filter for shell
//! output, the shared text buffer it feeds, and the small rules around them.

pub mod ansi;
pub mod buffer;
pub mod font;
pub mod glyph;
pub mod grid;
pub mod keys;
pub mod pty;
pub mod string_specs;

