//! Export of table structure and sample rows from a MySQL catalogue as SQL,
//! CSV, Markdown or JSON, with masking of sensitive columns, and the saved
//! connection list kept beside the program.

pub mod text;
pub mod value;
pub mod object;
pub mod types;
pub mod query;
pub mod rules;
pub mod masking;
pub mod export;
pub mod timefmt;
pub mod connections;
pub mod catalog;
