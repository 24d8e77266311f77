//! A canonicalizing formatter for a small expression-oriented language.
//!
//! Source text is parsed into a sequence of items; each item is rendered
//! back into canonical text by a tree serializer whose spacing decisions
//! guarantee that adjacent tokens never merge on a re-parse.

pub mod ast;
pub mod chars;
pub mod driver;
pub mod laws;
pub mod oracle;
pub mod parse;
pub mod prim;
pub mod render;
pub mod state;

