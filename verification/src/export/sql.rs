//! The SQL export: a comment header, the table definition, and one INSERT
//! statement per exported row.

use vstd::prelude::*;
use crate::text::{
    join, lines_text, trimmed, without_trailing, decimal, flat_map_chars, lemma_flat_map_step,
    chars_of, push_char, push_str, join_strings, push_lines, trim_str, trim_end_matches_char,
    lemma_lines_text_join, push_line, lemma_flat_map_first, lemma_without_trailing_shape,
};
use crate::value::{Cell, CellValue};
use crate::query::{quoted_identifier, quote_identifier};
use crate::types::{ExportMode, ExportTableData};
use crate::export::common::{
    mode_value, data_label, data_heading, mode_count, export_mode_value, export_data_label,
    export_data_heading, count_export_mode,
};

verus! {

/// A character of a string value in an SQL literal: backslash, quote,
/// carriage return and line feed escaped with a backslash.
pub open spec fn string_escape(c: char) -> Seq<char> {
    if c == '\\' { seq!['\\', '\\'] }
    else if c == '\'' { seq!['\\', '\''] }
    else if c == '\r' { seq!['\\', 'r'] }
    else if c == '\n' { seq!['\\', 'n'] }
    else { seq![c] }
}

/// A character of the JSON text of an array or object in an SQL literal:
/// backslash and quote escaped with a backslash.
pub open spec fn json_escape(c: char) -> Seq<char> {
    if c == '\\' { seq!['\\', '\\'] }
    else if c == '\'' { seq!['\\', '\''] }
    else { seq![c] }
}

pub open spec fn string_escaper() -> spec_fn(char) -> Seq<char> {
    |c: char| string_escape(c)
}

pub open spec fn json_escaper() -> spec_fn(char) -> Seq<char> {
    |c: char| json_escape(c)
}

/// A cell as an SQL literal: `NULL`, `1` or `0` for a boolean, a number as it
/// is printed, a string or an array or object quoted and escaped.
pub open spec fn sql_value_text(c: Cell) -> Seq<char> {
    match c {
        Cell::Null => "NULL"@,
        Cell::Bool(b) => if b { "1"@ } else { "0"@ },
        Cell::Number(t) => t,
        Cell::String(s) => seq!['\''] + flat_map_chars(s, string_escaper()) + seq!['\''],
        Cell::Nested(t) => seq!['\''] + flat_map_chars(t, json_escaper()) + seq!['\''],
    }
}

proof fn lemma_escaped_single_line(s: Seq<char>, f: spec_fn(char) -> Seq<char>)
    requires
        f == string_escaper(),
    ensures
        forall|i: int| 0 <= i < flat_map_chars(s, f).len() ==> #[trigger] flat_map_chars(s, f)[i] != '\n' && flat_map_chars(s, f)[i] != '\r',
    decreases s.len(),
{
    if s.len() > 0 {
        lemma_escaped_single_line(s.drop_last(), f);
        let prefix = flat_map_chars(s.drop_last(), f);
        let tail = f(s.last());
        assert(tail == string_escape(s.last()));
        assert(flat_map_chars(s, f) == prefix + tail);
        assert forall|i: int| 0 <= i < (prefix + tail).len() implies (prefix + tail)[i] != '\n' && (prefix + tail)[i] != '\r' by {
            if i < prefix.len() {
                assert((prefix + tail)[i] == prefix[i]);
            } else {
                assert((prefix + tail)[i] == tail[i - prefix.len()]);
            }
        }
    }
}

/// A string value written as an SQL literal holds no line feed and no
/// carriage return, so each INSERT statement stays on one line.
pub proof fn lemma_sql_string_literal_single_line(s: Seq<char>)
    ensures
        forall|i: int| 0 <= i < sql_value_text(Cell::String(s)).len() ==> #[trigger] sql_value_text(Cell::String(s))[i] != '\n'
            && sql_value_text(Cell::String(s))[i] != '\r',
{
    lemma_escaped_single_line(s, string_escaper());
    let body = flat_map_chars(s, string_escaper());
    assert(sql_value_text(Cell::String(s)) == seq!['\''] + body + seq!['\'']);
    assert forall|i: int| 0 <= i < sql_value_text(Cell::String(s)).len() implies sql_value_text(Cell::String(s))[i] != '\n'
        && sql_value_text(Cell::String(s))[i] != '\r' by {
        if 0 < i < body.len() + 1 {
            assert(sql_value_text(Cell::String(s))[i] == body[i - 1]);
        }
    }
}

/// The characters that the inside of an SQL string literal stands for: a
/// backslash and the character after it read as `\`, `'`, carriage return
/// (`r`) or line feed (`n`); none when a quote stands unescaped (where the
/// literal would end) or a backslash starts no such pair.
pub open spec fn read_sql_escaped(s: Seq<char>) -> Option<Seq<char>>
    decreases s.len(),
{
    if s.len() == 0 {
        Some(Seq::empty())
    } else if s[0] == '\\' {
        if s.len() < 2 {
            None
        } else {
            let c: Option<char> = if s[1] == '\\' { Some('\\') } else if s[1] == '\'' { Some('\'') }
                else if s[1] == 'r' { Some('\r') } else if s[1] == 'n' { Some('\n') } else { None };
            match (c, read_sql_escaped(s.skip(2))) {
                (Some(c), Some(rest)) => Some(seq![c] + rest),
                _ => None,
            }
        }
    } else if s[0] == '\'' {
        None
    } else {
        match read_sql_escaped(s.skip(1)) {
            Some(rest) => Some(seq![s[0]] + rest),
            None => None,
        }
    }
}

/// The text that an SQL literal of a string stands for: the literal is in
/// single quotes and its inside reads back by `read_sql_escaped`.
pub open spec fn read_sql_string(lit: Seq<char>) -> Option<Seq<char>> {
    if lit.len() >= 2 && lit[0] == '\'' && lit.last() == '\'' {
        read_sql_escaped(lit.subrange(1, lit.len() - 1))
    } else {
        None
    }
}

proof fn lemma_read_sql_escaped_inverts(value: Seq<char>, f: spec_fn(char) -> Seq<char>)
    requires
        f == string_escaper() || f == json_escaper(),
    ensures
        read_sql_escaped(flat_map_chars(value, f)) == Some(value),
    decreases value.len(),
{
    if value.len() > 0 {
        let c = value[0];
        let rest = value.skip(1);
        assert(value =~= seq![c] + rest);
        lemma_flat_map_first(c, rest, f);
        lemma_read_sql_escaped_inverts(rest, f);
        let t = flat_map_chars(value, f);
        let tail = flat_map_chars(rest, f);
        assert(t == f(c) + tail);
        if f(c).len() == 2 {
            assert(t.skip(2) =~= tail);
            assert(t[0] == f(c)[0] && t[1] == f(c)[1]);
        } else {
            assert(t.skip(1) =~= tail);
            assert(t[0] == c);
        }
        assert(read_sql_escaped(t) == Some(value));
    } else {
        assert(flat_map_chars(value, f) =~= Seq::<char>::empty());
    }
}

/// The SQL literal of a cell reads back as the cell: `NULL` for null, `1`
/// or `0` for true or false, a number as it is printed, and a string (or the
/// JSON text of an array or object) as a quoted literal whose escapes read
/// back as that text.
pub proof fn lemma_sql_literal_reads_back(c: Cell)
    ensures
        c == Cell::Null ==> sql_value_text(c) == "NULL"@,
        c == Cell::Bool(true) ==> sql_value_text(c) == "1"@,
        c == Cell::Bool(false) ==> sql_value_text(c) == "0"@,
        c matches Cell::Number(t) ==> sql_value_text(c) == t,
        c matches Cell::String(s) ==> read_sql_string(sql_value_text(c)) == Some(s),
        c matches Cell::Nested(t) ==> read_sql_string(sql_value_text(c)) == Some(t),
{
    match c {
        Cell::String(s) => {
            let body = flat_map_chars(s, string_escaper());
            lemma_read_sql_escaped_inverts(s, string_escaper());
            let lit = sql_value_text(c);
            assert(lit.subrange(1, lit.len() - 1) =~= body);
        }
        Cell::Nested(t) => {
            let body = flat_map_chars(t, json_escaper());
            lemma_read_sql_escaped_inverts(t, json_escaper());
            let lit = sql_value_text(c);
            assert(lit.subrange(1, lit.len() - 1) =~= body);
        }
        _ => {}
    }
}

fn push_escaped(out: &mut String, s: &str, full: bool)
    ensures
        final(out)@ == old(out)@ + flat_map_chars(s@, if full { string_escaper() } else { json_escaper() }),
{
    let ghost f = if full { string_escaper() } else { json_escaper() };
    let ghost start = out@;
    let cs = chars_of(s);
    let mut i: usize = 0;
    while i < cs.len()
        invariant
            i <= cs@.len(),
            cs@ == s@,
            f == if full { string_escaper() } else { json_escaper() },
            out@ == start + flat_map_chars(cs@.take(i as int), f),
        decreases cs.len() - i,
    {
        let c = cs[i];
        let ghost before = out@;
        if c == '\\' {
            push_char(out, '\\');
            push_char(out, '\\');
        } else if c == '\'' {
            push_char(out, '\\');
            push_char(out, '\'');
        } else if full && c == '\r' {
            push_char(out, '\\');
            push_char(out, 'r');
        } else if full && c == '\n' {
            push_char(out, '\\');
            push_char(out, 'n');
        } else {
            push_char(out, c);
        }
        assert(out@ =~= before + f(c));
        proof {
            lemma_flat_map_step(cs@, f, i as int);
        }
        i = i + 1;
    }
    assert(cs@.take(i as int) == s@);
}

/// A cell as an SQL literal, as `sql_value_text` says.
pub fn format_sql_value(value: &CellValue) -> (s: String)
    ensures
        s@ == sql_value_text(value@),
{
    match value {
        CellValue::Null => String::from_str("NULL"),
        CellValue::Bool(b) => if *b { String::from_str("1") } else { String::from_str("0") },
        CellValue::Number(t) => t.clone(),
        CellValue::String(t) => {
            let mut s = String::new();
            push_char(&mut s, '\'');
            push_escaped(&mut s, t.as_str(), true);
            push_char(&mut s, '\'');
            s
        }
        CellValue::Nested(t) => {
            let mut s = String::new();
            push_char(&mut s, '\'');
            push_escaped(&mut s, t.as_str(), false);
            push_char(&mut s, '\'');
            s
        }
    }
}

/// The column names quoted and separated by `, `.
pub open spec fn quoted_list(columns: Seq<Seq<char>>) -> Seq<char> {
    join(Seq::new(columns.len(), |i: int| quoted_identifier(columns[i])), ", "@)
}

/// The cells as SQL literals separated by `, `.
pub open spec fn value_list(row: Seq<Cell>) -> Seq<char> {
    join(Seq::new(row.len(), |i: int| sql_value_text(row[i])), ", "@)
}

/// The statement that inserts one row.
pub open spec fn insert_line(name: Seq<char>, columns: Seq<Seq<char>>, row: Seq<Cell>) -> Seq<char> {
    "INSERT INTO "@ + quoted_identifier(name) + " ("@ + quoted_list(columns) + ") VALUES ("@ + value_list(row) + ");"@
}

/// The separator lines of the file header and of a table header.
pub open spec fn double_rule() -> Seq<char> {
    "-- ============================================"@
}

pub open spec fn single_rule() -> Seq<char> {
    "-- --------------------------------------------"@
}

/// The lines of one table: its header when asked for, the definition
/// (`-- 表结构`, then the CREATE statement ended by exactly one `;`, or a
/// note that it could not be read), a blank line, then a note that there are
/// no rows, or the heading and one INSERT per row.
pub open spec fn sql_table_lines(t: ExportTableData, include_table_header: bool) -> Seq<Seq<char>> {
    let header: Seq<Seq<char>> = if include_table_header {
        seq![single_rule(), "-- Table: "@ + t.name@, "-- Export Mode: "@ + mode_value(t.export_mode), single_rule(), Seq::empty()]
    } else {
        Seq::empty()
    };
    let definition = if trimmed(t.create_sql@).len() == 0 {
        "-- \u{672a}\u{80fd}\u{83b7}\u{53d6}\u{5efa}\u{8868}\u{8bed}\u{53e5}"@
    } else {
        without_trailing(t.create_sql@, ';') + seq![';']
    };
    let rows = t.sample.rows.deep_view();
    let body: Seq<Seq<char>> = if rows.len() == 0 {
        seq!["-- \u{65e0}"@ + data_label(t.export_mode)]
    } else {
        seq!["-- "@ + data_heading(t.export_mode, rows.len())]
            + Seq::new(rows.len(), |r: int| insert_line(t.name@, t.sample.columns.deep_view(), rows[r]))
    };
    header + seq!["-- \u{8868}\u{7ed3}\u{6784}"@, definition, Seq::empty()] + body
}

/// A table with rows has one INSERT statement per row, in row order, each
/// built from that row's own cells: after the table header (five lines when
/// asked for), the three lines of the definition and the row heading, line
/// `r` is `INSERT INTO`, the quoted table name, the quoted column names
/// joined by `, ` in parentheses, `VALUES`, and the SQL literals of the cells
/// of row `r` joined by `, ` in parentheses, then `;`.
pub proof fn lemma_sql_insert_per_row(t: ExportTableData, include_table_header: bool, r: int)
    requires
        0 <= r < t.sample.rows.deep_view().len(),
    ensures
        sql_table_lines(t, include_table_header).len() == (if include_table_header { 5int } else { 0int }) + 4
            + t.sample.rows.deep_view().len(),
        sql_table_lines(t, include_table_header)[(if include_table_header { 5int } else { 0int }) + 4 + r]
            == "INSERT INTO "@ + quoted_identifier(t.name@) + " ("@
            + join(Seq::new(t.sample.columns.deep_view().len(), |i: int| quoted_identifier(t.sample.columns.deep_view()[i])), ", "@)
            + ") VALUES ("@
            + join(Seq::new(t.sample.rows.deep_view()[r].len(), |j: int| sql_value_text(t.sample.rows.deep_view()[r][j])), ", "@)
            + ");"@,
{
    let columns = t.sample.columns.deep_view();
    let row = t.sample.rows.deep_view()[r];
    assert(Seq::new(columns.len(), |i: int| quoted_identifier(columns[i]))
        =~= Seq::new(columns.len(), |i: int| quoted_identifier(t.sample.columns.deep_view()[i])));
    assert(Seq::new(row.len(), |j: int| sql_value_text(row[j]))
        =~= Seq::new(row.len(), |j: int| sql_value_text(t.sample.rows.deep_view()[r][j])));
}

/// A table's definition comes after its header (five lines when asked for)
/// and the line `-- 表结构`: when the CREATE statement is blank, a note that
/// it could not be read; otherwise the statement ended by exactly one `;` —
/// the statement with its trailing semicolons dropped, then one `;`.
pub proof fn lemma_sql_definition_line(t: ExportTableData, include_table_header: bool)
    ensures
        ({
            let h = if include_table_header { 5int } else { 0int };
            let line = sql_table_lines(t, include_table_header)[h + 1];
            let create = t.create_sql@;
            &&& sql_table_lines(t, include_table_header)[h] == "-- \u{8868}\u{7ed3}\u{6784}"@
            &&& trimmed(create).len() == 0 ==> line == "-- \u{672a}\u{80fd}\u{83b7}\u{53d6}\u{5efa}\u{8868}\u{8bed}\u{53e5}"@
            &&& trimmed(create).len() > 0 ==> {
                &&& line.len() >= 1 && line.last() == ';'
                &&& line.len() == 1 || line[line.len() - 2] != ';'
                &&& create.subrange(0, line.len() - 1) == line.drop_last()
                &&& forall|k: int| line.len() - 1 <= k < create.len() ==> #[trigger] create[k] == ';'
            }
        }),
{
    let create = t.create_sql@;
    lemma_without_trailing_shape(create, ';');
    let w = without_trailing(create, ';');
    let line = w + seq![';'];
    assert(line.drop_last() =~= w);
    if w.len() > 0 {
        assert(line[line.len() - 2] == w.last());
    }
}

/// The quoted column names, as `quoted_list` says.
fn quoted_column_list(columns: &Vec<String>) -> (s: String)
    ensures
        s@ == quoted_list(columns.deep_view()),
{
    let ghost v = columns.deep_view();
    let mut parts: Vec<String> = Vec::new();
    let mut i: usize = 0;
    while i < columns.len()
        invariant
            i <= columns@.len(),
            v == columns.deep_view(),
            parts.deep_view() == Seq::new(i as nat, |k: int| quoted_identifier(v[k])),
        decreases columns.len() - i,
    {
        let q = quote_identifier(columns[i].as_str());
        assert(v[i as int] == columns@[i as int]@);
        push_line(&mut parts, q);
        assert(parts.deep_view() =~= Seq::new((i + 1) as nat, |k: int| quoted_identifier(v[k])));
        i = i + 1;
    }
    join_strings(&parts, ", ")
}

/// The cells as SQL literals, as `value_list` says.
fn sql_value_list(row: &Vec<CellValue>) -> (s: String)
    ensures
        s@ == value_list(row.deep_view()),
{
    let ghost v = row.deep_view();
    let mut parts: Vec<String> = Vec::new();
    let mut i: usize = 0;
    while i < row.len()
        invariant
            i <= row@.len(),
            v == row.deep_view(),
            parts.deep_view() == Seq::new(i as nat, |k: int| sql_value_text(v[k])),
        decreases row.len() - i,
    {
        let q = format_sql_value(&row[i]);
        assert(v[i as int] == row@[i as int]@);
        push_line(&mut parts, q);
        assert(parts.deep_view() =~= Seq::new((i + 1) as nat, |k: int| sql_value_text(v[k])));
        i = i + 1;
    }
    join_strings(&parts, ", ")
}

/// Appends the lines of one table to `lines`, as `sql_table_lines` says.
pub fn append_sql_table_export(lines: &mut Vec<String>, table_data: &ExportTableData, include_table_header: bool)
    ensures
        final(lines).deep_view() == old(lines).deep_view() + sql_table_lines(*table_data, include_table_header),
{
    let ghost start = lines.deep_view();
    if include_table_header {
        push_line(lines, String::from_str("-- --------------------------------------------"));
        let mut l = String::from_str("-- Table: ");
        push_str(&mut l, table_data.name.as_str());
        push_line(lines, l);
        let mut l = String::from_str("-- Export Mode: ");
        push_str(&mut l, export_mode_value(table_data.export_mode));
        push_line(lines, l);
        push_line(lines, String::from_str("-- --------------------------------------------"));
        push_line(lines, String::new());
    }
    push_line(lines, String::from_str("-- \u{8868}\u{7ed3}\u{6784}"));
    let create_trimmed = trim_str(table_data.create_sql.as_str());
    if create_trimmed.as_str().is_empty() {
        push_line(lines, String::from_str("-- \u{672a}\u{80fd}\u{83b7}\u{53d6}\u{5efa}\u{8868}\u{8bed}\u{53e5}"));
    } else {
        let mut l = trim_end_matches_char(table_data.create_sql.as_str(), ';');
        push_char(&mut l, ';');
        assert(l@ =~= without_trailing(table_data.create_sql@, ';') + seq![';']);
        push_line(lines, l);
    }
    push_line(lines, String::new());
    let ghost mid = lines.deep_view();
    let ghost header: Seq<Seq<char>> = if include_table_header {
        seq![single_rule(), "-- Table: "@ + table_data.name@, "-- Export Mode: "@ + mode_value(table_data.export_mode), single_rule(), Seq::empty()]
    } else {
        Seq::empty()
    };
    let ghost definition = if trimmed(table_data.create_sql@).len() == 0 {
        "-- \u{672a}\u{80fd}\u{83b7}\u{53d6}\u{5efa}\u{8868}\u{8bed}\u{53e5}"@
    } else {
        without_trailing(table_data.create_sql@, ';') + seq![';']
    };
    assert(mid =~= start + header + seq!["-- \u{8868}\u{7ed3}\u{6784}"@, definition, Seq::empty()]);
    let ghost rows = table_data.sample.rows.deep_view();
    if table_data.sample.rows.len() == 0 {
        let mut l = String::from_str("-- \u{65e0}");
        push_str(&mut l, export_data_label(table_data.export_mode));
        push_line(lines, l);
        assert(lines.deep_view() =~= start + sql_table_lines(*table_data, include_table_header));
        return;
    }
    let mut l = String::from_str("-- ");
    let heading = export_data_heading(table_data.export_mode, table_data.sample.rows.len());
    push_str(&mut l, heading.as_str());
    push_line(lines, l);
    let ghost inserts = Seq::new(rows.len(), |r: int| insert_line(table_data.name@, table_data.sample.columns.deep_view(), rows[r]));
    let ghost head = lines.deep_view();
    let columns = quoted_column_list(&table_data.sample.columns);
    let mut r: usize = 0;
    while r < table_data.sample.rows.len()
        invariant
            r <= rows.len(),
            rows == table_data.sample.rows.deep_view(),
            inserts == Seq::new(rows.len(), |r: int| insert_line(table_data.name@, table_data.sample.columns.deep_view(), rows[r])),
            columns@ == quoted_list(table_data.sample.columns.deep_view()),
            lines.deep_view() == head + inserts.take(r as int),
        decreases table_data.sample.rows.len() - r,
    {
        let values = sql_value_list(&table_data.sample.rows[r]);
        assert(rows[r as int] == table_data.sample.rows@[r as int].deep_view());
        let mut l = String::from_str("INSERT INTO ");
        crate::query::push_quoted_identifier(&mut l, table_data.name.as_str());
        push_str(&mut l, " (");
        push_str(&mut l, columns.as_str());
        push_str(&mut l, ") VALUES (");
        push_str(&mut l, values.as_str());
        push_str(&mut l, ");");
        assert(l@ =~= inserts[r as int]);
        push_line(lines, l);
        assert(lines.deep_view() =~= head + inserts.take(r + 1));
        r = r + 1;
    }
    assert(inserts.take(r as int) == inserts);
    assert(lines.deep_view() =~= start + sql_table_lines(*table_data, include_table_header));
}


/// The file header of a single-table export.
pub open spec fn sql_file_header(database: Seq<char>, t: ExportTableData, export_time: Seq<char>) -> Seq<Seq<char>> {
    seq![
        double_rule(),
        "-- Database: "@ + database,
        "-- Table: "@ + t.name@,
        "-- Export Mode: "@ + mode_value(t.export_mode),
        "-- Export Time: "@ + export_time,
        "-- Export By: MySQL Sample Export"@,
        double_rule(),
    ]
}

/// The lines of a single-table export: the file header, then the table
/// without a table header.
pub open spec fn single_sql_lines(database: Seq<char>, t: ExportTableData, export_time: Seq<char>) -> Seq<Seq<char>> {
    sql_file_header(database, t, export_time) + sql_table_lines(t, false)
}

/// The names of the tables.
pub open spec fn table_names(tables: Seq<ExportTableData>) -> Seq<Seq<char>> {
    Seq::new(tables.len(), |i: int| tables[i].name@)
}

/// Each table after a blank line, with its table header.
pub open spec fn tables_sql_lines(tables: Seq<ExportTableData>) -> Seq<Seq<char>>
    decreases tables.len(),
{
    if tables.len() == 0 {
        Seq::empty()
    } else {
        tables_sql_lines(tables.drop_last()) + seq![Seq::<char>::empty()] + sql_table_lines(tables.last(), true)
    }
}

/// The lines of a multi-table export: a file header that lists the tables
/// and counts them by mode, a `USE` statement, then each table.
pub open spec fn multi_sql_lines(database: Seq<char>, tables: Seq<ExportTableData>, export_time: Seq<char>) -> Seq<Seq<char>> {
    seq![
        double_rule(),
        "-- Database: "@ + database,
        "-- Tables: "@ + join(table_names(tables), ", "@),
        "-- Table Count: "@ + decimal(tables.len()),
        "-- Sample Tables: "@ + decimal(mode_count(tables, ExportMode::Sample)),
        "-- Full Tables: "@ + decimal(mode_count(tables, ExportMode::Full)),
        "-- Export Time: "@ + export_time,
        "-- Export By: MySQL Sample Export"@,
        double_rule(),
        Seq::empty(),
        "USE "@ + quoted_identifier(database) + seq![';'],
    ] + tables_sql_lines(tables)
}

/// The lines of the SQL export of `tables`: the single-table form for one
/// table, the multi-table form otherwise.
pub open spec fn sql_export_lines(database: Seq<char>, tables: Seq<ExportTableData>, export_time: Seq<char>) -> Seq<Seq<char>> {
    if tables.len() == 1 {
        single_sql_lines(database, tables[0], export_time)
    } else {
        multi_sql_lines(database, tables, export_time)
    }
}

fn single_header_lines(database: &str, table_data: &ExportTableData, export_time: &str) -> (lines: Vec<String>)
    ensures
        lines.deep_view() == sql_file_header(database@, *table_data, export_time@),
{
    let mut lines: Vec<String> = Vec::new();
    push_line(&mut lines, String::from_str("-- ============================================"));
    let mut l = String::from_str("-- Database: ");
    push_str(&mut l, database);
    push_line(&mut lines, l);
    let mut l = String::from_str("-- Table: ");
    push_str(&mut l, table_data.name.as_str());
    push_line(&mut lines, l);
    let mut l = String::from_str("-- Export Mode: ");
    push_str(&mut l, export_mode_value(table_data.export_mode));
    push_line(&mut lines, l);
    let mut l = String::from_str("-- Export Time: ");
    push_str(&mut l, export_time);
    push_line(&mut lines, l);
    push_line(&mut lines, String::from_str("-- Export By: MySQL Sample Export"));
    push_line(&mut lines, String::from_str("-- ============================================"));
    assert(lines.deep_view() =~= sql_file_header(database@, *table_data, export_time@));
    lines
}

fn multi_header_lines(database: &str, tables: &[ExportTableData], export_time: &str) -> (lines: Vec<String>)
    ensures
        lines.deep_view() == multi_sql_lines(database@, tables@, export_time@).take(11),
{
    let mut names: Vec<String> = Vec::new();
    let mut i: usize = 0;
    while i < tables.len()
        invariant
            i <= tables@.len(),
            names.deep_view() == table_names(tables@).take(i as int),
        decreases tables.len() - i,
    {
        push_line(&mut names, tables[i].name.clone());
        assert(names.deep_view() =~= table_names(tables@).take(i + 1));
        i = i + 1;
    }
    assert(table_names(tables@).take(i as int) == table_names(tables@));
    let mut lines: Vec<String> = Vec::new();
    push_line(&mut lines, String::from_str("-- ============================================"));
    let mut l = String::from_str("-- Database: ");
    push_str(&mut l, database);
    push_line(&mut lines, l);
    let mut l = String::from_str("-- Tables: ");
    let joined = join_strings(&names, ", ");
    push_str(&mut l, joined.as_str());
    push_line(&mut lines, l);
    let mut l = String::from_str("-- Table Count: ");
    crate::text::push_decimal(&mut l, tables.len() as u64);
    push_line(&mut lines, l);
    let mut l = String::from_str("-- Sample Tables: ");
    crate::text::push_decimal(&mut l, count_export_mode(tables, ExportMode::Sample) as u64);
    push_line(&mut lines, l);
    let mut l = String::from_str("-- Full Tables: ");
    crate::text::push_decimal(&mut l, count_export_mode(tables, ExportMode::Full) as u64);
    push_line(&mut lines, l);
    let mut l = String::from_str("-- Export Time: ");
    push_str(&mut l, export_time);
    push_line(&mut lines, l);
    push_line(&mut lines, String::from_str("-- Export By: MySQL Sample Export"));
    push_line(&mut lines, String::from_str("-- ============================================"));
    push_line(&mut lines, String::new());
    let mut l = String::from_str("USE ");
    crate::query::push_quoted_identifier(&mut l, database);
    push_char(&mut l, ';');
    assert(l@ =~= "USE "@ + quoted_identifier(database@) + seq![';']);
    push_line(&mut lines, l);
    assert(lines.deep_view() =~= multi_sql_lines(database@, tables@, export_time@).take(11));
    lines
}

fn multi_sql_line_list(database: &str, tables: &[ExportTableData], export_time: &str) -> (lines: Vec<String>)
    ensures
        lines.deep_view() == multi_sql_lines(database@, tables@, export_time@),
{
    let mut lines = multi_header_lines(database, tables, export_time);
    let ghost head = lines.deep_view();
    assert(head + tables_sql_lines(tables@.take(0)) =~= head);
    let mut i: usize = 0;
    while i < tables.len()
        invariant
            i <= tables@.len(),
            lines.deep_view() == head + tables_sql_lines(tables@.take(i as int)),
        decreases tables.len() - i,
    {
        push_line(&mut lines, String::new());
        append_sql_table_export(&mut lines, &tables[i], true);
        assert(tables@.take(i + 1).drop_last() == tables@.take(i as int));
        assert(lines.deep_view() =~= head + tables_sql_lines(tables@.take(i + 1)));
        i = i + 1;
    }
    assert(tables@.take(i as int) == tables@);
    assert(lines.deep_view() =~= multi_sql_lines(database@, tables@, export_time@));
    lines
}

/// The SQL export of one table, its lines joined by line feeds.
pub fn generate_sql_export(database: &str, table_data: &ExportTableData, export_time: &str) -> (s: String)
    ensures
        s@ == join(single_sql_lines(database@, *table_data, export_time@), seq!['\n']),
{
    let mut lines = single_header_lines(database, table_data, export_time);
    append_sql_table_export(&mut lines, table_data, false);
    let s = join_strings(&lines, "\n");
    proof {
        reveal_strlit("\n");
        assert("\n"@ =~= seq!['\n']);
    }
    s
}

/// The SQL export of several tables, its lines joined by line feeds.
pub fn generate_multi_sql_export(database: &str, tables: &[ExportTableData], export_time: &str) -> (s: String)
    ensures
        s@ == join(multi_sql_lines(database@, tables@, export_time@), seq!['\n']),
{
    let lines = multi_sql_line_list(database, tables, export_time);
    let s = join_strings(&lines, "\n");
    proof {
        reveal_strlit("\n");
        assert("\n"@ =~= seq!['\n']);
    }
    s
}

/// Writes the lines of one table to `out`, each followed by a line feed.
pub fn write_sql_table_export(out: &mut String, table_data: &ExportTableData, include_table_header: bool)
    ensures
        final(out)@ == old(out)@ + lines_text(sql_table_lines(*table_data, include_table_header)),
{
    let mut lines: Vec<String> = Vec::new();
    append_sql_table_export(&mut lines, table_data, include_table_header);
    assert(lines.deep_view() =~= sql_table_lines(*table_data, include_table_header));
    push_lines(out, &lines);
}

/// Writes the SQL export of `tables` to `out`, as `sql_export_lines` says,
/// each line followed by a line feed.
pub fn write_sql_export_content(out: &mut String, database: &str, tables: &[ExportTableData], export_time: &str)
    ensures
        final(out)@ == old(out)@ + lines_text(sql_export_lines(database@, tables@, export_time@)),
{
    if tables.len() == 1 {
        let mut lines = single_header_lines(database, &tables[0], export_time);
        append_sql_table_export(&mut lines, &tables[0], false);
        push_lines(out, &lines);
    } else {
        let lines = multi_sql_line_list(database, tables, export_time);
        push_lines(out, &lines);
    }
}

/// What is written for an SQL export is what the generating functions
/// return, followed by one line feed: the single-table text for one table,
/// the multi-table text otherwise.
pub proof fn lemma_sql_write_matches_generate(database: Seq<char>, tables: Seq<ExportTableData>, export_time: Seq<char>)
    ensures
        lines_text(sql_export_lines(database, tables, export_time)) == join(sql_export_lines(database, tables, export_time), seq!['\n']) + seq!['\n'],
        tables.len() == 1 ==> sql_export_lines(database, tables, export_time) == single_sql_lines(database, tables[0], export_time),
        tables.len() != 1 ==> sql_export_lines(database, tables, export_time) == multi_sql_lines(database, tables, export_time),
{
    lemma_lines_text_join(sql_export_lines(database, tables, export_time));
}

} // verus!
