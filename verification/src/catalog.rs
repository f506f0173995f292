//! What the exporter reads from the server's catalogue: the databases, the
//! tables and views of a database, their definitions, and their rows.

use vstd::prelude::*;
use crate::text::{trimmed, trim_str, push_line};
use crate::value::{Cell, CellValue, SqlValue, value_cell, plain_text, value_to_plain_string};
use crate::object::lookup;
use vstd::utf8::{valid_utf8, decode_utf8};
use crate::object::{SqlRow, JsonObject, field_at, row_entries, row_to_object, text_of, u64_of,
    object_get_string, object_get_string_opt, object_get_u64, field_cell, optional_cell};
use crate::query::{select_query, clamped_limit, build_select_query, sanitize_limit};
use crate::types::SampleData;

verus! {

/// The connection settings the user entered.
#[derive(Debug)]
pub struct ConnectionConfig {
    pub host: String,
    pub port: u16,
    pub user: String,
    pub password: String,
    pub ssl: Option<bool>,
}

/// The settings a connection is opened with.
#[derive(Debug)]
pub struct ConnectionOptions {
    pub host: String,
    pub port: u16,
    pub user: String,
    pub password: String,
    pub use_ssl: bool,
}

/// The settings a connection is opened with: host and user trimmed, the
/// password as entered, TLS only when asked for.
pub fn connection_options(config: ConnectionConfig) -> (o: ConnectionOptions)
    ensures
        o.host@ == trimmed(config.host@),
        o.port == config.port,
        o.user@ == trimmed(config.user@),
        o.password@ == config.password@,
        o.use_ssl == (config.ssl == Some(true)),
{
    let use_ssl = match config.ssl {
        Some(b) => b,
        None => false,
    };
    ConnectionOptions {
        host: trim_str(config.host.as_str()),
        port: config.port,
        user: trim_str(config.user.as_str()),
        password: config.password,
        use_ssl,
    }
}

/// Whether `name` is one of the server's own databases.
pub open spec fn is_system_database(name: Seq<char>) -> bool {
    name == "information_schema"@ || name == "performance_schema"@ || name == "mysql"@ || name == "sys"@
}

/// The names of the databases in the result of `SHOW DATABASES`: the plain
/// text of the first value of each row that has one, without the server's
/// own databases, in order.
pub open spec fn database_list(rows: Seq<SqlRow>) -> Seq<Seq<char>>
    decreases rows.len(),
{
    if rows.len() == 0 {
        Seq::empty()
    } else {
        let before = database_list(rows.drop_last());
        match field_at(rows.last().values@, 0) {
            Some(v) => {
                let name = plain_text(value_cell(v));
                if is_system_database(name) { before } else { before.push(name) }
            }
            None => before,
        }
    }
}

/// No name in the list of databases is one of the server's own databases,
/// and the list has at most one name per row.
pub proof fn lemma_no_system_databases(rows: Seq<SqlRow>)
    ensures
        forall|i: int| 0 <= i < database_list(rows).len() ==> !is_system_database(#[trigger] database_list(rows)[i]),
        database_list(rows).len() <= rows.len(),
    decreases rows.len(),
{
    if rows.len() > 0 {
        lemma_no_system_databases(rows.drop_last());
    }
}

/// Every database that a row names and that is not one of the server's own
/// is listed.
pub proof fn lemma_user_databases_listed(rows: Seq<SqlRow>)
    ensures
        forall|i: int| 0 <= i < rows.len() ==> (#[trigger] field_at(rows[i].values@, 0) matches Some(v)
            ==> (!is_system_database(plain_text(value_cell(v))) ==> database_list(rows).contains(plain_text(value_cell(v))))),
    decreases rows.len(),
{
    if rows.len() > 0 {
        let front = rows.drop_last();
        lemma_user_databases_listed(front);
        assert forall|i: int| 0 <= i < rows.len() implies (#[trigger] field_at(rows[i].values@, 0) matches Some(v)
            ==> (!is_system_database(plain_text(value_cell(v))) ==> database_list(rows).contains(plain_text(value_cell(v))))) by {
            if let Some(v) = field_at(rows[i].values@, 0) {
                let name = plain_text(value_cell(v));
                if !is_system_database(name) {
                    let before = database_list(front);
                    if i < rows.len() - 1 {
                        assert(rows[i] == front[i]);
                        assert(field_at(front[i].values@, 0) == Some(v));
                        assert(before.contains(name));
                        let k = choose|k: int| 0 <= k < before.len() && before[k] == name;
                        assert(database_list(rows)[k] == name);
                    } else {
                        assert(database_list(rows) == before.push(name));
                        assert(database_list(rows)[before.len() as int] == name);
                    }
                }
            }
        }
    }
}

fn system_database(name: &String) -> (b: bool)
    ensures
        b == is_system_database(name@),
{
    *name == String::from_str("information_schema") || *name == String::from_str("performance_schema")
        || *name == String::from_str("mysql") || *name == String::from_str("sys")
}

/// The names of the databases, as `database_list` says.
pub fn databases_from_rows(rows: &Vec<SqlRow>) -> (names: Vec<String>)
    ensures
        names.deep_view() == database_list(rows@),
{
    let mut names: Vec<String> = Vec::new();
    let mut i: usize = 0;
    while i < rows.len()
        invariant
            i <= rows@.len(),
            names.deep_view() == database_list(rows@.take(i as int)),
        decreases rows.len() - i,
    {
        assert(rows@.take(i + 1).drop_last() == rows@.take(i as int));
        assert(rows@.take(i + 1).last() == rows@[i as int]);
        let row = &rows[i];
        if row.values.len() > 0 {
            if let Some(v) = &row.values[0] {
                let name = value_to_plain_string(v);
                if !system_database(&name) {
                    push_line(&mut names, name);
                }
            }
        }
        i = i + 1;
    }
    assert(rows@.take(i as int) == rows@);
    names
}

/// A table or view of a database.
#[derive(Debug)]
pub struct TableInfo {
    pub name: String,
    pub object_type: String,
    pub rows: u64,
}

/// Whether `info` describes the row of the catalogue query: its `name`, its
/// kind (`VIEW` when `type` is `VIEW`, else `TABLE`), and its `rows`.
pub open spec fn describes_table(info: TableInfo, row: SqlRow) -> bool {
    let entries = row_entries(row);
    let kind = match text_of(entries, "type"@) { Some(t) => t, None => Seq::empty() };
    &&& info.name@ == match text_of(entries, "name"@) { Some(t) => t, None => Seq::empty() }
    &&& info.object_type@ == if kind == "VIEW"@ { "VIEW"@ } else { "TABLE"@ }
    &&& info.rows == u64_of(entries, "rows"@)
}

/// The table or view of a row of the catalogue query, as `describes_table`
/// says.
pub fn table_info(row: &SqlRow) -> (info: TableInfo)
    ensures
        describes_table(info, *row),
{
    let object = row_to_object(row);
    let table_type = object_get_string(&object, "type");
    let object_type = if table_type == String::from_str("VIEW") { String::from_str("VIEW") } else { String::from_str("TABLE") };
    TableInfo { name: object_get_string(&object, "name"), object_type, rows: object_get_u64(&object, "rows") }
}

/// The tables and views of the rows of the catalogue query, in order.
pub fn tables_from_rows(rows: &Vec<SqlRow>) -> (infos: Vec<TableInfo>)
    ensures
        infos@.len() == rows@.len(),
        forall|i: int| 0 <= i < rows@.len() ==> describes_table(#[trigger] infos@[i], rows@[i]),
{
    let mut infos: Vec<TableInfo> = Vec::new();
    let mut i: usize = 0;
    while i < rows.len()
        invariant
            i <= rows@.len(),
            infos@.len() == i,
            forall|k: int| 0 <= k < i ==> describes_table(#[trigger] infos@[k], rows@[k]),
        decreases rows.len() - i,
    {
        infos.push(table_info(&rows[i]));
        i = i + 1;
    }
    infos
}

/// The description of the columns: one object per row of `SHOW FULL
/// COLUMNS`, in order.
pub fn structure_from_rows(rows: &Vec<SqlRow>) -> (objects: Vec<JsonObject>)
    ensures
        objects.deep_view() == Seq::new(rows@.len(), |i: int| row_entries(rows@[i])),
{
    let mut objects: Vec<JsonObject> = Vec::new();
    let mut i: usize = 0;
    while i < rows.len()
        invariant
            i <= rows@.len(),
            objects.deep_view() == Seq::new(i as nat, |k: int| row_entries(rows@[k])),
        decreases rows.len() - i,
    {
        let o = row_to_object(&rows[i]);
        let ghost before = objects.deep_view();
        let ghost ov = o@;
        objects.push(o);
        assert(objects.deep_view() =~= before.push(ov));
        assert(objects.deep_view() =~= Seq::new((i + 1) as nat, |k: int| row_entries(rows@[k])));
        i = i + 1;
    }
    objects
}

/// The definition of a table or view from the result of `SHOW CREATE
/// TABLE`: the text of `Create Table` in its first row, else that of
/// `Create View`, else empty; empty when there is no row.
pub open spec fn create_statement(rows: Seq<SqlRow>) -> Seq<char> {
    if rows.len() == 0 {
        Seq::empty()
    } else {
        let entries = row_entries(rows[0]);
        match text_of(entries, "Create Table"@) {
            Some(t) => t,
            None => match text_of(entries, "Create View"@) {
                Some(t) => t,
                None => Seq::empty(),
            },
        }
    }
}

/// The definition read from `SHOW CREATE TABLE` is the text of the first
/// row's `Create Table` entry whenever that entry holds one; only a row with
/// no such text (a view) gives that of its `Create View` entry; a result
/// without either text gives nothing.
pub proof fn lemma_create_statement_entries(rows: Seq<SqlRow>)
    ensures
        rows.len() > 0 ==> (text_of(row_entries(rows[0]), "Create Table"@) matches Some(t) ==> create_statement(rows) == t),
        rows.len() > 0 && text_of(row_entries(rows[0]), "Create Table"@) is None ==>
            (text_of(row_entries(rows[0]), "Create View"@) matches Some(t) ==> create_statement(rows) == t),
        rows.len() == 0 || (text_of(row_entries(rows[0]), "Create Table"@) is None
            && text_of(row_entries(rows[0]), "Create View"@) is None) ==> create_statement(rows).len() == 0,
{
}

/// For an ordinary table, whose `SHOW CREATE TABLE` row has the columns
/// `Table` and `Create Table`, the definition is the text of the bytes under
/// `Create Table`.
pub proof fn lemma_create_statement_of_table_row(rows: Seq<SqlRow>)
    requires
        rows.len() > 0,
        rows[0].columns@.len() == 2,
        rows[0].columns@[0]@ == "Table"@,
        rows[0].columns@[1]@ == "Create Table"@,
        rows[0].values@.len() == 2,
    ensures
        rows[0].values@[1] matches Some(SqlValue::Bytes(b)) ==> (valid_utf8(b@) ==> create_statement(rows) == decode_utf8(b@)),
{
    let entries = row_entries(rows[0]);
    assert(entries.len() == 2);
    assert(entries.last() == entries[1]);
    assert(entries[1].0 == "Create Table"@);
    assert(lookup(entries, "Create Table"@) == Some(entries[1].1));
    lemma_create_statement_entries(rows);
}

/// The definition of a table or view, as `create_statement` says.
pub fn create_table_sql_from_rows(rows: &Vec<SqlRow>) -> (s: String)
    ensures
        s@ == create_statement(rows@),
{
    if rows.len() == 0 {
        return String::new();
    }
    let object = row_to_object(&rows[0]);
    match object_get_string_opt(&object, "Create Table") {
        Some(t) => t,
        None => match object_get_string_opt(&object, "Create View") {
            Some(t) => t,
            None => String::new(),
        },
    }
}

/// The cells of a row under the given columns: the cell of the value at each
/// column's index, null where the row has none.
pub open spec fn row_cells(column_count: nat, row: SqlRow) -> Seq<Cell> {
    Seq::new(column_count, |j: int| optional_cell(field_at(row.values@, j)))
}

/// The sample read from a query result: no columns and no rows when the
/// result is empty, else the column names of its first row and, for each
/// row, its cells under those columns.
pub open spec fn sampled_rows(rows: Seq<SqlRow>, sample: SampleData) -> bool {
    if rows.len() == 0 {
        sample.columns@.len() == 0 && sample.rows@.len() == 0
    } else {
        &&& sample.columns.deep_view() == rows[0].columns.deep_view()
        &&& sample.rows.deep_view() == Seq::new(rows.len(), |r: int| row_cells(rows[0].columns@.len(), rows[r]))
    }
}

/// Reading a query result keeps every row, in order, each under the column
/// names of the first row: the cell of row `r` at column `j` is the cell of
/// that row's own value at `j`, null where the value is SQL NULL or
/// missing.
pub proof fn lemma_sampled_rows_per_row(rows: Seq<SqlRow>, sample: SampleData)
    requires
        sampled_rows(rows, sample),
        rows.len() > 0,
    ensures
        sample.rows.deep_view().len() == rows.len(),
        forall|r: int| 0 <= r < rows.len() ==> (#[trigger] sample.rows.deep_view()[r]).len() == rows[0].columns@.len(),
        forall|r: int, j: int| 0 <= r < rows.len() && 0 <= j < rows[0].columns@.len() ==>
            #[trigger] sample.rows.deep_view()[r][j] == (if j < rows[r].values@.len() {
                match rows[r].values@[j] {
                    Some(v) => value_cell(v),
                    None => Cell::Null,
                }
            } else {
                Cell::Null
            }),
{
}

/// The sample read from a query result, as `sampled_rows` says.
pub fn query_table_data(rows: &Vec<SqlRow>) -> (sample: SampleData)
    ensures
        sampled_rows(rows@, sample),
{
    if rows.len() == 0 {
        return SampleData { columns: Vec::new(), rows: Vec::new() };
    }
    let mut columns: Vec<String> = Vec::new();
    let mut j: usize = 0;
    while j < rows[0].columns.len()
        invariant
            rows@.len() > 0,
            j <= rows@[0].columns@.len(),
            columns.deep_view() == rows@[0].columns.deep_view().take(j as int),
        decreases rows[0].columns.len() - j,
    {
        push_line(&mut columns, rows[0].columns[j].clone());
        assert(columns.deep_view() =~= rows@[0].columns.deep_view().take(j + 1));
        j = j + 1;
    }
    assert(rows@[0].columns.deep_view().take(j as int) == rows@[0].columns.deep_view());
    let width = columns.len();
    let mut data: Vec<Vec<CellValue>> = Vec::new();
    let mut r: usize = 0;
    while r < rows.len()
        invariant
            r <= rows@.len(),
            width == rows@[0].columns@.len(),
            data.deep_view() == Seq::new(r as nat, |k: int| row_cells(width as nat, rows@[k])),
        decreases rows.len() - r,
    {
        let mut cells: Vec<CellValue> = Vec::new();
        let mut j: usize = 0;
        while j < width
            invariant
                j <= width,
                r < rows@.len(),
                cells.deep_view() == row_cells(width as nat, rows@[r as int]).take(j as int),
            decreases width - j,
        {
            let c = field_cell(&rows[r], j);
            let ghost before = cells.deep_view();
            let ghost cv = c@;
            cells.push(c);
            assert(cells.deep_view() =~= before.push(cv));
            assert(cells.deep_view() =~= row_cells(width as nat, rows@[r as int]).take(j + 1));
            j = j + 1;
        }
        assert(row_cells(width as nat, rows@[r as int]).take(j as int) == row_cells(width as nat, rows@[r as int]));
        let ghost before = data.deep_view();
        let ghost rv = cells.deep_view();
        data.push(cells);
        assert(data.deep_view() =~= before.push(rv));
        assert(data.deep_view() =~= Seq::new((r + 1) as nat, |k: int| row_cells(width as nat, rows@[k])));
        r = r + 1;
    }
    SampleData { columns, rows: data }
}

/// The query that reads a sample of a table: its rows up to the clamped
/// limit.
pub fn sample_data_query(database: &str, table: &str, limit: u32) -> (q: String)
    ensures
        q@ == select_query(database@, table@, Some(clamped_limit(limit))),
{
    build_select_query(database, table, Some(sanitize_limit(limit)))
}

} // verus!
