//! A lookup library for editor code snippets.
//!
//! A snippet file is a single JSON object: each key names a snippet, and each
//! value carries a `prefix` (the lookup key), a `body` (a string, or an array
//! of strings joined with single spaces), and an optional `description`.
//! [`parse`] turns such a document into a [`Snippets`] store, and
//! [`Snippets::get_body`] resolves a prefix to its expansion text, returning
//! the empty string for an unknown prefix.

pub mod json;
pub mod laws;
pub mod parser;
pub mod store;

pub use json::JsonModel;
pub use parser::ParseError;
pub use parser::parse;
pub use store::Snippet;
pub use store::SnippetModel;
pub use store::Snippets;
pub use store::store_of;
