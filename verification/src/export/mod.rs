//! The export formats: SQL, CSV, Markdown and JSON.

pub mod common;
pub mod sql;
pub mod csv;
pub mod markdown;
pub mod json;
pub mod content;
