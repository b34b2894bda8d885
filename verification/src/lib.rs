//! Compiles Markdown documents into complete, highlighted, gzip-compressed
//! HTML pages and answers requests for them from a fixed route table.

pub mod compress;
pub mod document;
pub mod entities;
pub mod error;
pub mod highlight;
pub mod language;
pub mod markdown;
pub mod page;
pub mod rewrite;
pub mod routes;
pub mod text;
