//! The JSON export, as a document that is printed with serde_json: per table
//! its description, its exported rows and their count.

use vstd::prelude::*;
use crate::value::{Cell, CellValue};
use crate::object::{JsonObject, lookup, object_get};
use crate::query::{clamped_limit, sanitize_limit};
use crate::types::{ExportMode, ExportTableData};
use crate::export::common::{mode_value, mode_count, export_mode_value, count_export_mode};

verus! {

/// One column of a table in the JSON export.
#[derive(Debug)]
pub struct JsonStructureColumn {
    pub field: CellValue,
    pub column_type: CellValue,
    pub nullable: bool,
    pub key: CellValue,
    pub default: CellValue,
    pub extra: CellValue,
    pub comment: CellValue,
}

/// The JSON export of one table.
#[derive(Debug)]
pub struct JsonTableExport {
    pub database: String,
    pub table: String,
    pub export_time: String,
    pub export_mode: String,
    pub structure: Vec<JsonStructureColumn>,
    pub sample_data: Vec<JsonObject>,
    pub sample_count: usize,
    pub row_count: usize,
}

/// The JSON export of several tables.
#[derive(Debug)]
pub struct JsonMultiExport {
    pub database: String,
    pub export_time: String,
    pub sample_limit: u32,
    pub table_count: usize,
    pub sample_tables: usize,
    pub full_tables: usize,
    pub tables: Vec<JsonTableExport>,
}

/// The JSON document of an export.
#[derive(Debug)]
pub enum JsonExport {
    Table(JsonTableExport),
    Tables(JsonMultiExport),
}

/// The value of `key` in a column description, null when absent.
pub open spec fn value_or_null(entries: Seq<(Seq<char>, Cell)>, key: Seq<char>) -> Cell {
    match lookup(entries, key) {
        Some(c) => c,
        None => Cell::Null,
    }
}

/// Whether a column description says the column may be null: its `Null`
/// is the string `YES`.
pub open spec fn is_nullable(entries: Seq<(Seq<char>, Cell)>) -> bool {
    lookup(entries, "Null"@) == Some(Cell::String("YES"@))
}

/// Whether `c` is what the JSON export says of the column described by
/// `entries`.
pub open spec fn describes(c: JsonStructureColumn, entries: Seq<(Seq<char>, Cell)>) -> bool {
    &&& c.field@ == value_or_null(entries, "Field"@)
    &&& c.column_type@ == value_or_null(entries, "Type"@)
    &&& c.nullable == is_nullable(entries)
    &&& c.key@ == value_or_null(entries, "Key"@)
    &&& c.default@ == value_or_null(entries, "Default"@)
    &&& c.extra@ == value_or_null(entries, "Extra"@)
    &&& c.comment@ == value_or_null(entries, "Comment"@)
}

/// A row as a JSON object: an entry per column name, with the cell at the
/// same index, null where the row is shorter.
pub open spec fn row_object(columns: Seq<Seq<char>>, row: Seq<Cell>) -> Seq<(Seq<char>, Cell)> {
    Seq::new(columns.len(), |j: int| (columns[j], if j < row.len() { row[j] } else { Cell::Null }))
}

/// Whether `e` is the JSON export of table `t` of `database` made at
/// `export_time`.
pub open spec fn exports_table(e: JsonTableExport, database: Seq<char>, t: ExportTableData, export_time: Seq<char>) -> bool {
    let rows = t.sample.rows.deep_view();
    let columns = t.sample.columns.deep_view();
    let structure = t.structure.deep_view();
    &&& e.database@ == database
    &&& e.table@ == t.name@
    &&& e.export_time@ == export_time
    &&& e.export_mode@ == mode_value(t.export_mode)
    &&& e.structure@.len() == structure.len()
    &&& forall|i: int| 0 <= i < structure.len() ==> describes(#[trigger] e.structure@[i], structure[i])
    &&& e.sample_data.deep_view() == Seq::new(rows.len(), |r: int| row_object(columns, rows[r]))
    &&& e.sample_count == rows.len()
    &&& e.row_count == rows.len()
}

/// The JSON export of a table holds one object per row, in row order: the
/// object of row `r` has, for each column `j` in order, an entry named after
/// the column with the cell of row `r` at `j` (null where the row is
/// shorter); and a column is nullable exactly when its `Null` is `YES`.
pub proof fn lemma_json_rows_per_row(e: JsonTableExport, database: Seq<char>, t: ExportTableData, export_time: Seq<char>)
    requires
        exports_table(e, database, t, export_time),
    ensures
        e.sample_data.deep_view().len() == t.sample.rows.deep_view().len(),
        forall|r: int, j: int| 0 <= r < t.sample.rows.deep_view().len() && 0 <= j < t.sample.columns.deep_view().len() ==>
            #[trigger] e.sample_data.deep_view()[r][j] == (t.sample.columns.deep_view()[j],
                if j < t.sample.rows.deep_view()[r].len() { t.sample.rows.deep_view()[r][j] } else { Cell::Null }),
        forall|r: int| 0 <= r < t.sample.rows.deep_view().len() ==>
            (#[trigger] e.sample_data.deep_view()[r]).len() == t.sample.columns.deep_view().len(),
        forall|i: int| 0 <= i < t.structure.deep_view().len() ==>
            ((#[trigger] e.structure@[i]).nullable <==> lookup(t.structure.deep_view()[i], "Null"@) == Some(Cell::String("YES"@))),
{
}

fn value_or_null_exec(object: &JsonObject, key: &str) -> (c: CellValue)
    ensures
        c@ == value_or_null(object@, key@),
{
    match object_get(object, key) {
        Some(v) => v.clone(),
        None => CellValue::Null,
    }
}

fn structure_column(object: &JsonObject) -> (c: JsonStructureColumn)
    ensures
        describes(c, object@),
{
    let yes = String::from_str("YES");
    let nullable = match object_get(object, "Null") {
        Some(CellValue::String(s)) => *s == yes,
        _ => false,
    };
    proof {
        reveal_strlit("YES");
    }
    JsonStructureColumn {
        field: value_or_null_exec(object, "Field"),
        column_type: value_or_null_exec(object, "Type"),
        nullable,
        key: value_or_null_exec(object, "Key"),
        default: value_or_null_exec(object, "Default"),
        extra: value_or_null_exec(object, "Extra"),
        comment: value_or_null_exec(object, "Comment"),
    }
}

fn json_row(columns: &Vec<String>, row: &Vec<CellValue>) -> (o: JsonObject)
    ensures
        o@ == row_object(columns.deep_view(), row.deep_view()),
{
    let ghost cv = columns.deep_view();
    let ghost rv = row.deep_view();
    let mut entries: Vec<(String, CellValue)> = Vec::new();
    let mut j: usize = 0;
    while j < columns.len()
        invariant
            j <= cv.len(),
            cv == columns.deep_view(),
            rv == row.deep_view(),
            entries.deep_view() == row_object(cv, rv).take(j as int),
        decreases columns.len() - j,
    {
        let value = if j < row.len() { row[j].clone() } else { CellValue::Null };
        let name = columns[j].clone();
        assert(cv[j as int] == name@);
        let ghost before = entries.deep_view();
        let ghost entry = (name@, value@);
        entries.push((name, value));
        assert(entries.deep_view() =~= before.push(entry));
        assert(entries.deep_view() =~= row_object(cv, rv).take(j + 1));
        j = j + 1;
    }
    assert(row_object(cv, rv).take(j as int) == row_object(cv, rv));
    JsonObject { entries }
}

/// The JSON export of one table, as `exports_table` says.
pub fn format_json_table_export(database: &str, table_data: &ExportTableData, export_time: &str) -> (e: JsonTableExport)
    ensures
        exports_table(e, database@, *table_data, export_time@),
{
    let ghost rows = table_data.sample.rows.deep_view();
    let ghost columns = table_data.sample.columns.deep_view();
    let ghost structure = table_data.structure.deep_view();
    let mut data_rows: Vec<JsonObject> = Vec::new();
    let mut r: usize = 0;
    while r < table_data.sample.rows.len()
        invariant
            r <= rows.len(),
            rows == table_data.sample.rows.deep_view(),
            columns == table_data.sample.columns.deep_view(),
            data_rows.deep_view() == Seq::new(r as nat, |k: int| row_object(columns, rows[k])),
        decreases table_data.sample.rows.len() - r,
    {
        let o = json_row(&table_data.sample.columns, &table_data.sample.rows[r]);
        assert(rows[r as int] == table_data.sample.rows@[r as int].deep_view());
        let ghost before = data_rows.deep_view();
        let ghost ov = o@;
        data_rows.push(o);
        assert(data_rows.deep_view() =~= before.push(ov));
        assert(data_rows.deep_view() =~= Seq::new((r + 1) as nat, |k: int| row_object(columns, rows[k])));
        r = r + 1;
    }
    let mut described: Vec<JsonStructureColumn> = Vec::new();
    let mut i: usize = 0;
    while i < table_data.structure.len()
        invariant
            i <= structure.len(),
            structure == table_data.structure.deep_view(),
            described@.len() == i,
            forall|k: int| 0 <= k < i ==> describes(#[trigger] described@[k], structure[k]),
        decreases table_data.structure.len() - i,
    {
        assert(structure[i as int] == table_data.structure@[i as int]@);
        described.push(structure_column(&table_data.structure[i]));
        i = i + 1;
    }
    let count = data_rows.len();
    JsonTableExport {
        database: String::from_str(database),
        table: table_data.name.clone(),
        export_time: String::from_str(export_time),
        export_mode: String::from_str(export_mode_value(table_data.export_mode)),
        structure: described,
        sample_data: data_rows,
        sample_count: count,
        row_count: count,
    }
}

/// Whether `m` is the JSON export of several tables: the export time, the
/// clamped sample size, the number of tables in all and by mode, and the
/// document of each table.
pub open spec fn exports_multi(m: JsonMultiExport, database: Seq<char>, tables: Seq<ExportTableData>, export_time: Seq<char>, sample_limit: u32) -> bool {
    &&& m.database@ == database
    &&& m.export_time@ == export_time
    &&& m.sample_limit == clamped_limit(sample_limit)
    &&& m.table_count == tables.len()
    &&& m.sample_tables == mode_count(tables, ExportMode::Sample)
    &&& m.full_tables == mode_count(tables, ExportMode::Full)
    &&& m.tables@.len() == tables.len()
    &&& forall|i: int| 0 <= i < tables.len() ==> exports_table(#[trigger] m.tables@[i], database, tables[i], export_time)
}

/// Whether `e` is the JSON export of `tables` of `database`: the document of
/// the one table when there is one, else the document of several tables.
pub open spec fn exports_tables(e: JsonExport, database: Seq<char>, tables: Seq<ExportTableData>, export_time: Seq<char>, sample_limit: u32) -> bool {
    if tables.len() == 1 {
        e matches JsonExport::Table(t) && exports_table(t, database, tables[0], export_time)
    } else {
        e matches JsonExport::Tables(m) && exports_multi(m, database, tables, export_time, sample_limit)
    }
}

/// The JSON export of several tables, as `exports_multi` says.
pub fn format_multi_json_export(database: &str, tables: &[ExportTableData], export_time: &str, sample_limit: u32) -> (m: JsonMultiExport)
    ensures
        exports_multi(m, database@, tables@, export_time@, sample_limit),
{
    let mut documents: Vec<JsonTableExport> = Vec::new();
    let mut i: usize = 0;
    while i < tables.len()
        invariant
            i <= tables@.len(),
            documents@.len() == i,
            forall|k: int| 0 <= k < i ==> exports_table(#[trigger] documents@[k], database@, tables@[k], export_time@),
        decreases tables.len() - i,
    {
        documents.push(format_json_table_export(database, &tables[i], export_time));
        i = i + 1;
    }
    JsonMultiExport {
        database: String::from_str(database),
        export_time: String::from_str(export_time),
        sample_limit: sanitize_limit(sample_limit),
        table_count: tables.len(),
        sample_tables: count_export_mode(tables, ExportMode::Sample),
        full_tables: count_export_mode(tables, ExportMode::Full),
        tables: documents,
    }
}

/// The JSON export of `tables`, as `exports_tables` says.
pub fn write_json_export_content(database: &str, tables: &[ExportTableData], export_time: &str, sample_limit: u32) -> (e: JsonExport)
    ensures
        exports_tables(e, database@, tables@, export_time@, sample_limit),
{
    if tables.len() == 1 {
        JsonExport::Table(format_json_table_export(database, &tables[0], export_time))
    } else {
        JsonExport::Tables(format_multi_json_export(database, tables, export_time, sample_limit))
    }
}

} // verus!
