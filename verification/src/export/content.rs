//! The content of an export file in the chosen format.

use vstd::prelude::*;
use crate::text::lines_text;
use crate::types::{ExportFormat, ExportTableData};
use crate::export::sql::{sql_export_lines, write_sql_export_content};
use crate::export::csv::{csv_lines, write_csv_export_content};
use crate::export::markdown::{markdown_export_lines, write_markdown_export_content};
use crate::export::json::{JsonExport, exports_tables, write_json_export_content};

verus! {

/// The content of an export file: text, or a JSON document to print.
#[derive(Debug)]
pub enum ExportContent {
    Text(String),
    Json(JsonExport),
}

/// Whether `c` is the export of `tables` of `database` in `format`: SQL
/// with the SQL-style time, JSON and Markdown with the default time and the
/// sample limit, CSV without either.
pub open spec fn exports_content(
    c: ExportContent,
    database: Seq<char>,
    tables: Seq<ExportTableData>,
    format: ExportFormat,
    default_export_time: Seq<char>,
    sql_export_time: Seq<char>,
    sample_limit: u32,
) -> bool {
    match format {
        ExportFormat::Sql => c matches ExportContent::Text(t) && t@ == lines_text(sql_export_lines(database, tables, sql_export_time)),
        ExportFormat::Json => c matches ExportContent::Json(e) && exports_tables(e, database, tables, default_export_time, sample_limit),
        ExportFormat::Csv => c matches ExportContent::Text(t) && t@ == lines_text(csv_lines(database, tables)),
        ExportFormat::Markdown => c matches ExportContent::Text(t)
            && t@ == lines_text(markdown_export_lines(database, tables, default_export_time, sample_limit)),
    }
}

/// The export of `tables` in `format`, as `exports_content` says.
pub fn write_export_content(
    database: &str,
    tables: &[ExportTableData],
    format: ExportFormat,
    default_export_time: &str,
    sql_export_time: &str,
    sample_limit: u32,
) -> (c: ExportContent)
    ensures
        exports_content(c, database@, tables@, format, default_export_time@, sql_export_time@, sample_limit),
{
    match format {
        ExportFormat::Sql => {
            let mut out = String::new();
            write_sql_export_content(&mut out, database, tables, sql_export_time);
            ExportContent::Text(out)
        }
        ExportFormat::Json => ExportContent::Json(write_json_export_content(database, tables, default_export_time, sample_limit)),
        ExportFormat::Csv => {
            let mut out = String::new();
            write_csv_export_content(&mut out, database, tables);
            ExportContent::Text(out)
        }
        ExportFormat::Markdown => {
            let mut out = String::new();
            write_markdown_export_content(&mut out, database, tables, default_export_time, sample_limit);
            ExportContent::Text(out)
        }
    }
}

} // verus!
