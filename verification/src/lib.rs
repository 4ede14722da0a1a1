//! Note indexing and boolean search over Markdown files with front matter.

pub mod chars;
pub mod document;
pub mod field;
pub mod front_matter;
pub mod laws;
pub mod lexer;
pub mod operator;
pub mod query;
pub mod recognize;
pub mod span;
pub mod tui_app;
pub mod util;
