//! The records that the exporters and the connection list work on.

use vstd::prelude::*;
use crate::value::CellValue;
use crate::object::JsonObject;

verus! {

/// Whether a table is exported with a bounded sample of its rows or whole.
#[derive(Debug, Clone, Copy, PartialEq, Eq, Structural)]
pub enum ExportMode {
    Sample,
    Full,
}

/// The file format of an export.
#[derive(Debug, Clone, Copy, PartialEq, Eq, Structural)]
pub enum ExportFormat {
    Sql,
    Json,
    Csv,
    Markdown,
}

/// Column names and rows of cells read from a table.
#[derive(Debug)]
pub struct SampleData {
    pub columns: Vec<String>,
    pub rows: Vec<Vec<CellValue>>,
}

/// Everything exported of one table.
#[derive(Debug)]
pub struct ExportTableData {
    pub name: String,
    pub export_mode: ExportMode,
    pub create_sql: String,
    /// One object per column, as `SHOW FULL COLUMNS` describes it.
    pub structure: Vec<JsonObject>,
    pub sample: SampleData,
}

} // verus!
