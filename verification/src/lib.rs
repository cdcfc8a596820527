//! Projection of nested, byte-addressed highlight events onto ranges of
//! grapheme clusters, each tagged with the colour of its category.

pub mod engine;
pub mod grammar;
pub mod highlighter;
pub mod nesting;
pub mod offset_index;
pub mod table;
pub mod translate;
