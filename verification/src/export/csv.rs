//! The CSV export: per table, a few key-value lines, the column names, and
//! one line per row.

use vstd::prelude::*;
use crate::text::{
    join, lines_text, decimal, flat_map_chars, lemma_flat_map_step, chars_of, push_char, push_str,
    join_strings, push_lines, push_line, lemma_lines_text_join, read_quoted, lemma_read_quoted_inverts,
};
use crate::value::{Cell, CellValue, display_text, display_string};
use crate::types::ExportTableData;
use crate::export::common::{mode_value, data_label, export_mode_value, export_data_label};

verus! {

/// Whether `c` forces a CSV field into quotes: comma, double quote, line
/// feed or carriage return.
pub open spec fn is_csv_special(c: char) -> bool {
    c == ',' || c == '"' || c == '\n' || c == '\r'
}

/// A double quote doubled, any other character kept.
pub open spec fn quote_doubler() -> spec_fn(char) -> Seq<char> {
    |c: char| if c == '"' { seq!['"', '"'] } else { seq![c] }
}

/// `value` as a CSV field: in double quotes, with inner double quotes
/// doubled, when it holds a special character; else as it is.
pub open spec fn csv_escaped(value: Seq<char>) -> Seq<char> {
    if exists|i: int| 0 <= i < value.len() && is_csv_special(#[trigger] value[i]) {
        seq!['"'] + flat_map_chars(value, quote_doubler()) + seq!['"']
    } else {
        value
    }
}

/// The value that one CSV field `s` stands for: a field that opens with a
/// double quote is quoted, its inner double quotes doubled; a field that
/// does not holds no special character and stands for itself; none for any
/// other text.
pub open spec fn read_csv_field(s: Seq<char>) -> Option<Seq<char>> {
    if s.len() > 0 && s[0] == '"' {
        read_quoted(s, '"')
    } else if exists|i: int| 0 <= i < s.len() && is_csv_special(#[trigger] s[i]) {
        None
    } else {
        Some(s)
    }
}

/// A value written as a CSV field reads back as that value.
pub proof fn lemma_csv_field_reads_back(value: Seq<char>)
    ensures
        read_csv_field(csv_escaped(value)) == Some(value),
{
    let f = quote_doubler();
    if exists|i: int| 0 <= i < value.len() && is_csv_special(#[trigger] value[i]) {
        assert forall|c: char| #[trigger] f(c) == (if c == '"' { seq!['"', '"'] } else { seq![c] }) by {}
        lemma_read_quoted_inverts(value, '"', f);
    } else if value.len() > 0 {
        assert(!is_csv_special(value[0]));
    }
}

/// `value` as a CSV field, as `csv_escaped` says; the field reads back as
/// `value`.
pub fn escape_csv(value: &str) -> (s: String)
    ensures
        s@ == csv_escaped(value@),
        read_csv_field(s@) == Some(value@),
{
    proof {
        lemma_csv_field_reads_back(value@);
    }
    let cs = chars_of(value);
    let mut special = false;
    let mut i: usize = 0;
    while i < cs.len()
        invariant
            i <= cs@.len(),
            special <==> exists|k: int| 0 <= k < i && is_csv_special(#[trigger] cs@[k]),
        decreases cs.len() - i,
    {
        let c = cs[i];
        if c == ',' || c == '"' || c == '\n' || c == '\r' {
            special = true;
        }
        i = i + 1;
    }
    if !special {
        return String::from_str(value);
    }
    let ghost f = quote_doubler();
    let mut s = String::new();
    push_char(&mut s, '"');
    let mut i: usize = 0;
    while i < cs.len()
        invariant
            i <= cs@.len(),
            f == quote_doubler(),
            s@ == seq!['"'] + flat_map_chars(cs@.take(i as int), f),
        decreases cs.len() - i,
    {
        let c = cs[i];
        let ghost before = s@;
        if c == '"' {
            push_char(&mut s, '"');
            push_char(&mut s, '"');
        } else {
            push_char(&mut s, c);
        }
        assert(s@ =~= before + f(c));
        proof {
            lemma_flat_map_step(cs@, f, i as int);
        }
        i = i + 1;
    }
    assert(cs@.take(i as int) == value@);
    push_char(&mut s, '"');
    s
}

/// A cell as a CSV field: `NULL` for null, else its text escaped.
pub open spec fn csv_value_text(c: Cell) -> Seq<char> {
    match c {
        Cell::Null => "NULL"@,
        Cell::String(s) => csv_escaped(s),
        _ => csv_escaped(display_text(c)),
    }
}

/// A cell as a CSV field, as `csv_value_text` says.
pub fn escape_csv_value(value: &CellValue) -> (s: String)
    ensures
        s@ == csv_value_text(value@),
{
    match value {
        CellValue::Null => String::from_str("NULL"),
        CellValue::String(t) => escape_csv(t.as_str()),
        other => {
            let text = display_string(other);
            escape_csv(text.as_str())
        }
    }
}

/// The fields separated by commas.
pub open spec fn csv_record(fields: Seq<Seq<char>>) -> Seq<char> {
    join(fields, ","@)
}

/// The lines of one table: its qualified name, its mode and its row count
/// as key-value lines, the column names, one line per row, and a note when
/// there are no rows.
pub open spec fn csv_table_lines(database: Seq<char>, t: ExportTableData) -> Seq<Seq<char>> {
    let rows = t.sample.rows.deep_view();
    let columns = t.sample.columns.deep_view();
    seq![
        csv_record(seq![csv_escaped("Table"@), csv_escaped(database + seq!['.'] + t.name@)]),
        csv_record(seq![csv_escaped("Export Mode"@), csv_escaped(mode_value(t.export_mode))]),
        csv_record(seq![csv_escaped("Row Count"@), csv_escaped(decimal(rows.len()))]),
        csv_record(Seq::new(columns.len(), |j: int| csv_escaped(columns[j]))),
    ] + Seq::new(rows.len(), |r: int| csv_record(Seq::new(rows[r].len(), |j: int| csv_value_text(rows[r][j]))))
      + if rows.len() == 0 {
        seq![csv_escaped("(\u{65e0}"@ + data_label(t.export_mode) + seq![')'])]
    } else {
        Seq::empty()
    }
}

/// A table's CSV has four heading lines, then one record per row in row
/// order, each made of the fields of that row's own cells joined by `,`,
/// then a note only when there are no rows. A field reads back as its cell:
/// `NULL` for null, a string as itself, anything else as its printed text.
pub proof fn lemma_csv_record_per_row(database: Seq<char>, t: ExportTableData)
    ensures
        csv_table_lines(database, t).len() == 4 + t.sample.rows.deep_view().len()
            + (if t.sample.rows.deep_view().len() == 0 { 1int } else { 0int }),
        forall|r: int| 0 <= r < t.sample.rows.deep_view().len() ==> #[trigger] csv_table_lines(database, t)[4 + r]
            == join(Seq::new(t.sample.rows.deep_view()[r].len(), |j: int| csv_value_text(t.sample.rows.deep_view()[r][j])), ","@),
        csv_value_text(Cell::Null) == "NULL"@,
        forall|x: Seq<char>| read_csv_field(#[trigger] csv_value_text(Cell::String(x))) == Some(x),
        forall|c: Cell| !(c is Null) && !(c is String) ==> read_csv_field(#[trigger] csv_value_text(c)) == Some(display_text(c)),
{
    assert forall|x: Seq<char>| read_csv_field(#[trigger] csv_value_text(Cell::String(x))) == Some(x) by {
        lemma_csv_field_reads_back(x);
    }
    assert forall|c: Cell| !(c is Null) && !(c is String) implies read_csv_field(#[trigger] csv_value_text(c)) == Some(display_text(c)) by {
        lemma_csv_field_reads_back(display_text(c));
    }
    let rows = t.sample.rows.deep_view();
    assert forall|r: int| 0 <= r < rows.len() implies #[trigger] csv_table_lines(database, t)[4 + r]
        == join(Seq::new(rows[r].len(), |j: int| csv_value_text(rows[r][j])), ","@) by {
        assert(Seq::new(rows[r].len(), |j: int| csv_value_text(rows[r][j]))
            =~= Seq::new(t.sample.rows.deep_view()[r].len(), |j: int| csv_value_text(t.sample.rows.deep_view()[r][j])));
    }
}

/// The lines of the tables, a blank line between two tables.
pub open spec fn csv_lines(database: Seq<char>, tables: Seq<ExportTableData>) -> Seq<Seq<char>>
    decreases tables.len(),
{
    if tables.len() == 0 {
        Seq::empty()
    } else {
        let before = csv_lines(database, tables.drop_last());
        let gap: Seq<Seq<char>> = if tables.len() > 1 { seq![Seq::empty()] } else { Seq::empty() };
        before + gap + csv_table_lines(database, tables.last())
    }
}

fn csv_pair(key: &str, value: &str) -> (s: String)
    ensures
        s@ == csv_record(seq![csv_escaped(key@), csv_escaped(value@)]),
{
    let mut parts: Vec<String> = Vec::new();
    push_line(&mut parts, escape_csv(key));
    push_line(&mut parts, escape_csv(value));
    assert(parts.deep_view() =~= seq![csv_escaped(key@), csv_escaped(value@)]);
    let s = join_strings(&parts, ",");
    s
}

/// Appends the lines of one table to `lines`, as `csv_table_lines` says.
pub fn append_csv_table_export(lines: &mut Vec<String>, database: &str, table_data: &ExportTableData)
    ensures
        final(lines).deep_view() == old(lines).deep_view() + csv_table_lines(database@, *table_data),
{
    let ghost start = lines.deep_view();
    let ghost rows = table_data.sample.rows.deep_view();
    let ghost columns = table_data.sample.columns.deep_view();
    let mut qualified = String::from_str(database);
    push_char(&mut qualified, '.');
    push_str(&mut qualified, table_data.name.as_str());
    assert(qualified@ =~= database@ + seq!['.'] + table_data.name@);
    push_line(lines, csv_pair("Table", qualified.as_str()));
    push_line(lines, csv_pair("Export Mode", export_mode_value(table_data.export_mode)));
    let count = crate::text::decimal_string(table_data.sample.rows.len() as u64);
    push_line(lines, csv_pair("Row Count", count.as_str()));
    let mut names: Vec<String> = Vec::new();
    let mut j: usize = 0;
    while j < table_data.sample.columns.len()
        invariant
            j <= columns.len(),
            columns == table_data.sample.columns.deep_view(),
            names.deep_view() == Seq::new(j as nat, |k: int| csv_escaped(columns[k])),
        decreases table_data.sample.columns.len() - j,
    {
        assert(columns[j as int] == table_data.sample.columns@[j as int]@);
        push_line(&mut names, escape_csv(table_data.sample.columns[j].as_str()));
        assert(names.deep_view() =~= Seq::new((j + 1) as nat, |k: int| csv_escaped(columns[k])));
        j = j + 1;
    }
    push_line(lines, join_strings(&names, ","));
    let ghost head = lines.deep_view();
    let ghost records = Seq::new(rows.len(), |r: int| csv_record(Seq::new(rows[r].len(), |j: int| csv_value_text(rows[r][j]))));
    let mut r: usize = 0;
    while r < table_data.sample.rows.len()
        invariant
            r <= rows.len(),
            rows == table_data.sample.rows.deep_view(),
            records == Seq::new(rows.len(), |r: int| csv_record(Seq::new(rows[r].len(), |j: int| csv_value_text(rows[r][j])))),
            lines.deep_view() == head + records.take(r as int),
        decreases table_data.sample.rows.len() - r,
    {
        let row = &table_data.sample.rows[r];
        assert(rows[r as int] == row.deep_view());
        let mut fields: Vec<String> = Vec::new();
        let mut j: usize = 0;
        while j < row.len()
            invariant
                j <= row@.len(),
                r < rows.len(),
                rows[r as int] == row.deep_view(),
                fields.deep_view() == Seq::new(j as nat, |k: int| csv_value_text(rows[r as int][k])),
            decreases row.len() - j,
        {
            assert(rows[r as int][j as int] == row@[j as int]@);
            push_line(&mut fields, escape_csv_value(&row[j]));
            assert(fields.deep_view() =~= Seq::new((j + 1) as nat, |k: int| csv_value_text(rows[r as int][k])));
            j = j + 1;
        }
        push_line(lines, join_strings(&fields, ","));
        assert(lines.deep_view() =~= head + records.take(r + 1));
        r = r + 1;
    }
    assert(records.take(r as int) == records);
    if table_data.sample.rows.len() == 0 {
        let mut note = String::from_str("(\u{65e0}");
        push_str(&mut note, export_data_label(table_data.export_mode));
        push_char(&mut note, ')');
        assert(note@ =~= "(\u{65e0}"@ + data_label(table_data.export_mode) + seq![')']);
        push_line(lines, escape_csv(note.as_str()));
    }
    assert(lines.deep_view() =~= start + csv_table_lines(database@, *table_data));
}

fn csv_line_list(database: &str, tables: &[ExportTableData]) -> (lines: Vec<String>)
    ensures
        lines.deep_view() == csv_lines(database@, tables@),
{
    let mut lines: Vec<String> = Vec::new();
    let mut i: usize = 0;
    while i < tables.len()
        invariant
            i <= tables@.len(),
            lines.deep_view() == csv_lines(database@, tables@.take(i as int)),
        decreases tables.len() - i,
    {
        if i > 0 {
            push_line(&mut lines, String::new());
        }
        append_csv_table_export(&mut lines, database, &tables[i]);
        assert(tables@.take(i + 1).drop_last() == tables@.take(i as int));
        assert(lines.deep_view() =~= csv_lines(database@, tables@.take(i + 1)));
        i = i + 1;
    }
    assert(tables@.take(i as int) == tables@);
    lines
}

/// The CSV export of one table, its lines joined by line feeds.
pub fn generate_csv_export(database: &str, table_data: &ExportTableData) -> (s: String)
    ensures
        s@ == join(csv_table_lines(database@, *table_data), seq!['\n']),
{
    let mut lines: Vec<String> = Vec::new();
    append_csv_table_export(&mut lines, database, table_data);
    assert(lines.deep_view() =~= csv_table_lines(database@, *table_data));
    let s = join_strings(&lines, "\n");
    proof {
        reveal_strlit("\n");
        assert("\n"@ =~= seq!['\n']);
    }
    s
}

/// The CSV export of several tables, its lines joined by line feeds.
pub fn generate_multi_csv_export(database: &str, tables: &[ExportTableData]) -> (s: String)
    ensures
        s@ == join(csv_lines(database@, tables@), seq!['\n']),
{
    let lines = csv_line_list(database, tables);
    let s = join_strings(&lines, "\n");
    proof {
        reveal_strlit("\n");
        assert("\n"@ =~= seq!['\n']);
    }
    s
}

/// Writes the lines of one table to `out`, each followed by a line feed.
pub fn write_csv_table_export(out: &mut String, database: &str, table_data: &ExportTableData)
    ensures
        final(out)@ == old(out)@ + lines_text(csv_table_lines(database@, *table_data)),
{
    let mut lines: Vec<String> = Vec::new();
    append_csv_table_export(&mut lines, database, table_data);
    assert(lines.deep_view() =~= csv_table_lines(database@, *table_data));
    push_lines(out, &lines);
}

/// Writes the CSV export of `tables` to `out`, as `csv_lines` says, each
/// line followed by a line feed.
pub fn write_csv_export_content(out: &mut String, database: &str, tables: &[ExportTableData])
    ensures
        final(out)@ == old(out)@ + lines_text(csv_lines(database@, tables@)),
{
    let lines = csv_line_list(database, tables);
    push_lines(out, &lines);
}

/// What is written for a CSV export of at least one table is what
/// `generate_multi_csv_export` returns, followed by one line feed.
pub proof fn lemma_csv_write_matches_generate(database: Seq<char>, tables: Seq<ExportTableData>)
    requires
        tables.len() > 0,
    ensures
        lines_text(csv_lines(database, tables)) == join(csv_lines(database, tables), seq!['\n']) + seq!['\n'],
{
    assert(csv_lines(database, tables).len() > 0);
    lemma_lines_text_join(csv_lines(database, tables));
}

} // verus!
