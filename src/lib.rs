//! A ranked text index over a corpus of documentation pages, built once and queried
//! concurrently, and the plain logic of the developer tools that surround it.
//!
//! The search pipeline: `tokenizer` turns text into terms, `extract` turns a page into an
//! `IndexedDocument` (`document`), `index` counts document frequencies, `query` selects
//! and ranks matching documents, and `engine` holds the life cycle of a search engine and
//! the choice between a cached and a fresh index.
pub mod text;
pub mod tokenizer;
pub mod document;
pub mod index;
pub mod query;
pub mod extract;
pub mod engine;
pub mod tools;
pub mod patterns;
pub mod paths;
pub mod crate_info;
pub mod surgeon;
pub mod project;
pub mod outline;
