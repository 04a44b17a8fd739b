//! Core of a small terminal text editor: a grapheme-indexed line buffer,
//! a syntax-highlight overlay derived from it, and cursor/viewport arithmetic.

pub mod text;
pub mod row;
pub mod highlight;
pub mod document;
pub mod editor;
pub mod terminal;
pub mod highlighting;
