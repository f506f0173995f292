//! The Markdown export: per table, a table of its columns and a table of its
//! exported rows.

use vstd::prelude::*;
use crate::text::{join, lines_text, decimal, chars_of, push_char, push_str, join_strings, push_lines, push_line, lemma_lines_text_join};
use crate::value::{Cell, CellValue, display_text, display_string};
use crate::object::{JsonObject, lookup, object_get};
use crate::query::clamped_limit;
use crate::types::{ExportMode, ExportTableData};
use crate::export::common::{
    mode_label, data_label, data_heading, mode_count, export_mode_label, export_data_label,
    export_data_heading, count_export_mode,
};

verus! {

/// The text of a cell in Markdown: `NULL` for null, the characters of a
/// string, the printed text of anything else.
pub open spec fn markdown_text(c: Cell) -> Seq<char> {
    match c {
        Cell::Null => "NULL"@,
        Cell::String(s) => s,
        _ => display_text(c),
    }
}

/// The text of a cell in Markdown, as `markdown_text` says.
pub fn markdown_value(value: &CellValue) -> (s: String)
    ensures
        s@ == markdown_text(value@),
{
    match value {
        CellValue::Null => String::from_str("NULL"),
        CellValue::String(t) => t.clone(),
        other => display_string(other),
    }
}

/// `s` made safe for a Markdown table cell, read from the left: `|` becomes
/// `\|`, a carriage return and line feed pair becomes `<br>`, as does a lone
/// line feed or carriage return.
pub open spec fn markdown_escaped(s: Seq<char>) -> Seq<char>
    decreases s.len(),
{
    if s.len() == 0 {
        Seq::empty()
    } else if s.len() >= 2 && s[0] == '\r' && s[1] == '\n' {
        "<br>"@ + markdown_escaped(s.skip(2))
    } else if s[0] == '|' {
        seq!['\\', '|'] + markdown_escaped(s.skip(1))
    } else if s[0] == '\n' || s[0] == '\r' {
        "<br>"@ + markdown_escaped(s.skip(1))
    } else {
        seq![s[0]] + markdown_escaped(s.skip(1))
    }
}

/// A cell made safe for a Markdown table holds no line feed and no carriage
/// return, so it cannot break the table's line.
pub proof fn lemma_markdown_cell_single_line(s: Seq<char>)
    ensures
        forall|i: int| 0 <= i < markdown_escaped(s).len() ==> #[trigger] markdown_escaped(s)[i] != '\n' && markdown_escaped(s)[i] != '\r',
    decreases s.len(),
{
    reveal_strlit("<br>");
    if s.len() > 0 {
        let br: Seq<char> = "<br>"@;
        assert(br == seq!['<', 'b', 'r', '>']);
        let (head, rest): (Seq<char>, Seq<char>) = if s.len() >= 2 && s[0] == '\r' && s[1] == '\n' {
            (br, s.skip(2))
        } else if s[0] == '|' {
            (seq!['\\', '|'], s.skip(1))
        } else if s[0] == '\n' || s[0] == '\r' {
            (br, s.skip(1))
        } else {
            (seq![s[0]], s.skip(1))
        };
        lemma_markdown_cell_single_line(rest);
        let tail = markdown_escaped(rest);
        assert(markdown_escaped(s) == head + tail);
        assert forall|i: int| 0 <= i < (head + tail).len() implies (head + tail)[i] != '\n' && (head + tail)[i] != '\r' by {
            if i < head.len() {
                assert((head + tail)[i] == head[i]);
            } else {
                assert((head + tail)[i] == tail[i - head.len()]);
            }
        }
    }
}

/// `value` made safe for a Markdown table cell, as `markdown_escaped` says.
pub fn escape_markdown_cell(value: &str) -> (r: String)
    ensures
        r@ == markdown_escaped(value@),
{
    let cs = chars_of(value);
    let n = cs.len();
    let mut r = String::new();
    let mut i: usize = 0;
    assert(cs@.skip(0) == cs@);
    while i < n
        invariant
            n == cs@.len(),
            cs@ == value@,
            i <= n,
            markdown_escaped(value@) == r@ + markdown_escaped(cs@.skip(i as int)),
        decreases n - i,
    {
        let ghost rest = cs@.skip(i as int);
        let ghost before = r@;
        let c = cs[i];
        assert(rest[0] == c);
        if c == '\r' && i + 1 < n && cs[i + 1] == '\n' {
            assert(rest[1] == cs@[i + 1]);
            push_str(&mut r, "<br>");
            assert(rest.skip(2) == cs@.skip(i + 2));
            i = i + 2;
        } else {
            if c == '|' {
                push_char(&mut r, '\\');
                push_char(&mut r, '|');
            } else if c == '\n' || c == '\r' {
                push_str(&mut r, "<br>");
            } else {
                push_char(&mut r, c);
            }
            assert(rest.skip(1) == cs@.skip(i + 1));
            assert(i + 1 < n ==> rest[1] == cs@[i + 1]);
            i = i + 1;
        }
        assert(markdown_escaped(value@) =~= r@ + markdown_escaped(cs@.skip(i as int)));
    }
    assert(cs@.skip(n as int) =~= Seq::<char>::empty());
    assert(r@ =~= markdown_escaped(value@));
    r
}

/// The Markdown text of `key` in a column description, or `absent` when it
/// has none.
pub open spec fn field_text(entries: Seq<(Seq<char>, Cell)>, key: Seq<char>, absent: Seq<char>) -> Seq<char> {
    match lookup(entries, key) {
        Some(c) => markdown_text(c),
        None => absent,
    }
}

/// Like `field_text`, with `-` in place of an empty text.
pub open spec fn field_text_or_dash(entries: Seq<(Seq<char>, Cell)>, key: Seq<char>) -> Seq<char> {
    let t = field_text(entries, key, "-"@);
    if t.len() == 0 { "-"@ } else { t }
}

/// Whether the column may be null, as its description says: the string of
/// `Null`, or `NO` when that is no string.
pub open spec fn nullable_text(entries: Seq<(Seq<char>, Cell)>) -> Seq<char> {
    match lookup(entries, "Null"@) {
        Some(Cell::String(s)) => s,
        _ => "NO"@,
    }
}

/// The Markdown table line of a column description: its name, type,
/// nullability, key, default, extra and comment.
pub open spec fn structure_line(entries: Seq<(Seq<char>, Cell)>) -> Seq<char> {
    "| "@ + markdown_escaped(field_text(entries, "Field"@, Seq::empty()))
        + " | "@ + markdown_escaped(field_text(entries, "Type"@, Seq::empty()))
        + " | "@ + nullable_text(entries)
        + " | "@ + markdown_escaped(field_text_or_dash(entries, "Key"@))
        + " | "@ + markdown_escaped(field_text(entries, "Default"@, "NULL"@))
        + " | "@ + markdown_escaped(field_text_or_dash(entries, "Extra"@))
        + " | "@ + markdown_escaped(field_text_or_dash(entries, "Comment"@))
        + " |"@
}

/// The start of a column's line before its nullability cell: `| `, the
/// escaped name, ` | `, the escaped type, ` | `.
pub open spec fn structure_lead(entries: Seq<(Seq<char>, Cell)>) -> Seq<char> {
    "| "@ + markdown_escaped(field_text(entries, "Field"@, Seq::empty()))
        + " | "@ + markdown_escaped(field_text(entries, "Type"@, Seq::empty())) + " | "@
}

/// The third cell of a column's line (允许为空) is the column's `Null`
/// string as the server gave it (`YES` stays `YES`), or `NO` when the
/// description has no `Null` string; the cell is followed by ` | `.
pub proof fn lemma_structure_line_nullable(entries: Seq<(Seq<char>, Cell)>)
    ensures
        structure_line(entries).subrange(0, structure_lead(entries).len() as int) == structure_lead(entries),
        lookup(entries, "Null"@) matches Some(Cell::String(s)) ==> ({
            let k = structure_lead(entries).len() as int;
            structure_line(entries).subrange(k, k + s.len() + 3) == s + " | "@
        }),
        !(lookup(entries, "Null"@) matches Some(Cell::String(_))) ==> ({
            let k = structure_lead(entries).len() as int;
            structure_line(entries).subrange(k, k + 5) == "NO | "@
        }),
{
    reveal_strlit("NO");
    reveal_strlit("NO | ");
    reveal_strlit(" | ");
    let lead = structure_lead(entries);
    let cell: Seq<char> = match lookup(entries, "Null"@) {
        Some(Cell::String(s)) => s,
        _ => "NO"@,
    };
    let rest = markdown_escaped(field_text_or_dash(entries, "Key"@))
        + " | "@ + markdown_escaped(field_text(entries, "Default"@, "NULL"@))
        + " | "@ + markdown_escaped(field_text_or_dash(entries, "Extra"@))
        + " | "@ + markdown_escaped(field_text_or_dash(entries, "Comment"@))
        + " |"@;
    let line = structure_line(entries);
    assert(line =~= lead + cell + " | "@ + rest);
    assert(line.subrange(0, lead.len() as int) =~= lead);
    assert(line.subrange(lead.len() as int, (lead.len() + cell.len() + 3) as int) =~= cell + " | "@);
    if !(lookup(entries, "Null"@) matches Some(Cell::String(_))) {
        assert(cell + " | "@ =~= "NO | "@);
    }
}

/// When a table has columns and rows, its row table follows the column
/// lines and the row heading: the header of escaped column names, the
/// separator, then one line per row in row order, made of the escaped
/// Markdown text of that row's own cells between `| ` and ` |`, joined by
/// ` | `; null shows as `NULL`.
pub proof fn lemma_markdown_row_lines(t: ExportTableData)
    ensures
        ({
            let s = t.structure.deep_view().len();
            let columns = t.sample.columns.deep_view();
            let rows = t.sample.rows.deep_view();
            columns.len() > 0 && rows.len() > 0 ==> {
                &&& markdown_table_lines(t).len() == 4 + s + 3 + 2 + rows.len()
                &&& forall|r: int| 0 <= r < rows.len() ==> #[trigger] markdown_table_lines(t)[4 + s + 3 + 2 + r]
                    == "| "@ + join(Seq::new(rows[r].len(), |j: int| markdown_escaped(markdown_text(rows[r][j]))), " | "@) + " |"@
            }
        }),
        markdown_text(Cell::Null) == "NULL"@,
        forall|x: Seq<char>| #[trigger] markdown_text(Cell::String(x)) == x,
{
}

/// The lines of a table's column table are, after its heading and header,
/// the lines of its column descriptions in order.
pub proof fn lemma_markdown_structure_lines(t: ExportTableData)
    ensures
        forall|i: int| 0 <= i < t.structure.deep_view().len() ==>
            #[trigger] markdown_table_lines(t)[4 + i] == structure_line(t.structure.deep_view()[i]),
{
}

/// A Markdown table line of the given cells.
pub open spec fn table_line(cells: Seq<Seq<char>>) -> Seq<char> {
    "| "@ + join(cells, " | "@) + " |"@
}

/// The lines of one table: the heading and header of its column table, one
/// line per column, the heading of its rows, then a note that there are no
/// rows (or no columns), or the header and one line per row.
pub open spec fn markdown_table_lines(t: ExportTableData) -> Seq<Seq<char>> {
    let structure = t.structure.deep_view();
    let columns = t.sample.columns.deep_view();
    let rows = t.sample.rows.deep_view();
    let head: Seq<Seq<char>> = seq![
        "## \u{8868}\u{7ed3}\u{6784}"@,
        Seq::empty(),
        "| \u{5b57}\u{6bb5} | \u{7c7b}\u{578b} | \u{5141}\u{8bb8}\u{4e3a}\u{7a7a} | \u{952e} | \u{9ed8}\u{8ba4}\u{503c} | \u{989d}\u{5916} | \u{6ce8}\u{91ca} |"@,
        "|------|------|---------|-----|--------|------|------|"@,
    ];
    let described = Seq::new(structure.len(), |i: int| structure_line(structure[i]));
    let heading: Seq<Seq<char>> = seq![Seq::empty(), "## "@ + data_heading(t.export_mode, rows.len()), Seq::empty()];
    let body: Seq<Seq<char>> = if columns.len() == 0 || rows.len() == 0 {
        seq!["*(\u{65e0}"@ + data_label(t.export_mode) + ")*"@]
    } else {
        seq![
            table_line(Seq::new(columns.len(), |j: int| markdown_escaped(columns[j]))),
            table_line(Seq::new(columns.len(), |j: int| "---"@)),
        ] + Seq::new(rows.len(), |r: int| table_line(Seq::new(rows[r].len(), |j: int| markdown_escaped(markdown_text(rows[r][j])))))
    };
    head + described + heading + body
}


fn field_or(object: &JsonObject, key: &str, absent: &str) -> (s: String)
    ensures
        s@ == field_text(object@, key@, absent@),
{
    match object_get(object, key) {
        Some(v) => markdown_value(v),
        None => String::from_str(absent),
    }
}

fn field_or_dash(object: &JsonObject, key: &str) -> (s: String)
    ensures
        s@ == field_text_or_dash(object@, key@),
{
    let t = field_or(object, key, "-");
    if t.as_str().is_empty() { String::from_str("-") } else { t }
}

/// The Markdown table line of a column description, as `structure_line` says.
fn markdown_structure_line(object: &JsonObject) -> (s: String)
    ensures
        s@ == structure_line(object@),
{
    let field = field_or(object, "Field", "");
    let column_type = field_or(object, "Type", "");
    let nullable = match object_get(object, "Null") {
        Some(CellValue::String(t)) => t.clone(),
        _ => String::from_str("NO"),
    };
    let key = field_or_dash(object, "Key");
    let default = field_or(object, "Default", "NULL");
    let extra = field_or_dash(object, "Extra");
    let comment = field_or_dash(object, "Comment");
    proof {
        reveal_strlit("");
    }
    let mut s = String::from_str("| ");
    push_str(&mut s, escape_markdown_cell(field.as_str()).as_str());
    push_str(&mut s, " | ");
    push_str(&mut s, escape_markdown_cell(column_type.as_str()).as_str());
    push_str(&mut s, " | ");
    push_str(&mut s, nullable.as_str());
    push_str(&mut s, " | ");
    push_str(&mut s, escape_markdown_cell(key.as_str()).as_str());
    push_str(&mut s, " | ");
    push_str(&mut s, escape_markdown_cell(default.as_str()).as_str());
    push_str(&mut s, " | ");
    push_str(&mut s, escape_markdown_cell(extra.as_str()).as_str());
    push_str(&mut s, " | ");
    push_str(&mut s, escape_markdown_cell(comment.as_str()).as_str());
    push_str(&mut s, " |");
    assert(s@ =~= structure_line(object@));
    s
}

fn markdown_table_line(cells: &Vec<String>) -> (s: String)
    ensures
        s@ == table_line(cells.deep_view()),
{
    let mut s = String::from_str("| ");
    push_str(&mut s, join_strings(cells, " | ").as_str());
    push_str(&mut s, " |");
    s
}

fn markdown_row_line(row: &Vec<CellValue>) -> (s: String)
    ensures
        s@ == table_line(Seq::new(row.deep_view().len(), |j: int| markdown_escaped(markdown_text(row.deep_view()[j])))),
{
    let ghost v = row.deep_view();
    let mut cells: Vec<String> = Vec::new();
    let mut j: usize = 0;
    while j < row.len()
        invariant
            j <= row@.len(),
            v == row.deep_view(),
            cells.deep_view() == Seq::new(j as nat, |k: int| markdown_escaped(markdown_text(v[k]))),
        decreases row.len() - j,
    {
        assert(v[j as int] == row@[j as int]@);
        let text = markdown_value(&row[j]);
        push_line(&mut cells, escape_markdown_cell(text.as_str()));
        assert(cells.deep_view() =~= Seq::new((j + 1) as nat, |k: int| markdown_escaped(markdown_text(v[k]))));
        j = j + 1;
    }
    markdown_table_line(&cells)
}

/// Appends the lines of one table to `lines`, as `markdown_table_lines` says.
pub fn append_markdown_table_export(lines: &mut Vec<String>, table_data: &ExportTableData)
    ensures
        final(lines).deep_view() == old(lines).deep_view() + markdown_table_lines(*table_data),
{
    let ghost start = lines.deep_view();
    let ghost structure = table_data.structure.deep_view();
    let ghost columns = table_data.sample.columns.deep_view();
    let ghost rows = table_data.sample.rows.deep_view();
    push_line(lines, String::from_str("## \u{8868}\u{7ed3}\u{6784}"));
    push_line(lines, String::new());
    push_line(lines, String::from_str("| \u{5b57}\u{6bb5} | \u{7c7b}\u{578b} | \u{5141}\u{8bb8}\u{4e3a}\u{7a7a} | \u{952e} | \u{9ed8}\u{8ba4}\u{503c} | \u{989d}\u{5916} | \u{6ce8}\u{91ca} |"));
    push_line(lines, String::from_str("|------|------|---------|-----|--------|------|------|"));
    let ghost head = lines.deep_view();
    let ghost described = Seq::new(structure.len(), |i: int| structure_line(structure[i]));
    let mut i: usize = 0;
    while i < table_data.structure.len()
        invariant
            i <= structure.len(),
            structure == table_data.structure.deep_view(),
            described == Seq::new(structure.len(), |i: int| structure_line(structure[i])),
            lines.deep_view() == head + described.take(i as int),
        decreases table_data.structure.len() - i,
    {
        assert(structure[i as int] == table_data.structure@[i as int]@);
        push_line(lines, markdown_structure_line(&table_data.structure[i]));
        assert(lines.deep_view() =~= head + described.take(i + 1));
        i = i + 1;
    }
    assert(described.take(i as int) == described);
    push_line(lines, String::new());
    let mut l = String::from_str("## ");
    push_str(&mut l, export_data_heading(table_data.export_mode, table_data.sample.rows.len()).as_str());
    push_line(lines, l);
    push_line(lines, String::new());
    let ghost middle = lines.deep_view();
    if table_data.sample.columns.len() == 0 || table_data.sample.rows.len() == 0 {
        let mut l = String::from_str("*(\u{65e0}");
        push_str(&mut l, export_data_label(table_data.export_mode));
        push_str(&mut l, ")*");
        push_line(lines, l);
        assert(lines.deep_view() =~= start + markdown_table_lines(*table_data));
        return;
    }
    let mut names: Vec<String> = Vec::new();
    let mut rules: Vec<String> = Vec::new();
    let mut j: usize = 0;
    while j < table_data.sample.columns.len()
        invariant
            j <= columns.len(),
            columns == table_data.sample.columns.deep_view(),
            names.deep_view() == Seq::new(j as nat, |k: int| markdown_escaped(columns[k])),
            rules.deep_view() == Seq::new(j as nat, |k: int| "---"@),
        decreases table_data.sample.columns.len() - j,
    {
        assert(columns[j as int] == table_data.sample.columns@[j as int]@);
        push_line(&mut names, escape_markdown_cell(table_data.sample.columns[j].as_str()));
        push_line(&mut rules, String::from_str("---"));
        assert(names.deep_view() =~= Seq::new((j + 1) as nat, |k: int| markdown_escaped(columns[k])));
        assert(rules.deep_view() =~= Seq::new((j + 1) as nat, |k: int| "---"@));
        j = j + 1;
    }
    push_line(lines, markdown_table_line(&names));
    push_line(lines, markdown_table_line(&rules));
    let ghost top = lines.deep_view();
    let ghost row_lines = Seq::new(rows.len(), |r: int| table_line(Seq::new(rows[r].len(), |j: int| markdown_escaped(markdown_text(rows[r][j])))));
    let mut r: usize = 0;
    while r < table_data.sample.rows.len()
        invariant
            r <= rows.len(),
            rows == table_data.sample.rows.deep_view(),
            row_lines == Seq::new(rows.len(), |r: int| table_line(Seq::new(rows[r].len(), |j: int| markdown_escaped(markdown_text(rows[r][j]))))),
            lines.deep_view() == top + row_lines.take(r as int),
        decreases table_data.sample.rows.len() - r,
    {
        assert(rows[r as int] == table_data.sample.rows@[r as int].deep_view());
        push_line(lines, markdown_row_line(&table_data.sample.rows[r]));
        assert(lines.deep_view() =~= top + row_lines.take(r + 1));
        r = r + 1;
    }
    assert(row_lines.take(r as int) == row_lines);
    assert(lines.deep_view() =~= start + markdown_table_lines(*table_data));
}


/// The title line of a table: `# database.table`.
pub open spec fn table_title(database: Seq<char>, name: Seq<char>) -> Seq<char> {
    "# "@ + database + seq!['.'] + name
}

/// The lines of a single-table export: its title, the export time and mode,
/// then the table.
pub open spec fn single_markdown_lines(database: Seq<char>, t: ExportTableData, export_time: Seq<char>) -> Seq<Seq<char>> {
    seq![
        table_title(database, t.name@),
        Seq::empty(),
        "> \u{5bfc}\u{51fa}\u{65f6}\u{95f4}: "@ + export_time,
        "> \u{5bfc}\u{51fa}\u{6a21}\u{5f0f}: "@ + mode_label(t.export_mode),
        Seq::empty(),
    ] + markdown_table_lines(t)
}

/// Each table after a rule, with its title.
pub open spec fn tables_markdown_lines(database: Seq<char>, tables: Seq<ExportTableData>) -> Seq<Seq<char>>
    decreases tables.len(),
{
    if tables.len() == 0 {
        Seq::empty()
    } else {
        tables_markdown_lines(database, tables.drop_last())
            + seq![Seq::empty(), "---"@, Seq::empty(), table_title(database, tables.last().name@), Seq::empty()]
            + markdown_table_lines(tables.last())
    }
}

/// The lines of a multi-table export: a title, the export time, the number
/// of tables in all and by mode, the clamped sample size, then each table.
pub open spec fn multi_markdown_lines(database: Seq<char>, tables: Seq<ExportTableData>, export_time: Seq<char>, sample_limit: u32) -> Seq<Seq<char>> {
    seq![
        "# "@ + database + " \u{591a}\u{8868}\u{5bfc}\u{51fa}"@,
        Seq::empty(),
        "> \u{5bfc}\u{51fa}\u{65f6}\u{95f4}: "@ + export_time,
        "> \u{8868}\u{6570}\u{91cf}: "@ + decimal(tables.len()),
        "> Sample \u{8868}: "@ + decimal(mode_count(tables, ExportMode::Sample)),
        "> \u{5168}\u{91cf}\u{8868}: "@ + decimal(mode_count(tables, ExportMode::Full)),
        "> \u{6837}\u{4f8b}\u{884c}\u{6570}: "@ + decimal(clamped_limit(sample_limit) as nat),
    ] + tables_markdown_lines(database, tables)
}

/// The lines of the Markdown export of `tables`: the single-table form for
/// one table, the multi-table form otherwise.
pub open spec fn markdown_export_lines(database: Seq<char>, tables: Seq<ExportTableData>, export_time: Seq<char>, sample_limit: u32) -> Seq<Seq<char>> {
    if tables.len() == 1 {
        single_markdown_lines(database, tables[0], export_time)
    } else {
        multi_markdown_lines(database, tables, export_time, sample_limit)
    }
}

fn title_line(database: &str, name: &str) -> (s: String)
    ensures
        s@ == table_title(database@, name@),
{
    let mut s = String::from_str("# ");
    push_str(&mut s, database);
    push_char(&mut s, '.');
    push_str(&mut s, name);
    assert(s@ =~= table_title(database@, name@));
    s
}

fn labelled(label: &str, value: &str) -> (s: String)
    ensures
        s@ == label@ + value@,
{
    let mut s = String::from_str(label);
    push_str(&mut s, value);
    s
}

fn labelled_count(label: &str, n: usize) -> (s: String)
    ensures
        s@ == label@ + decimal(n as nat),
{
    let mut s = String::from_str(label);
    crate::text::push_decimal(&mut s, n as u64);
    s
}

fn single_markdown_line_list(database: &str, table_data: &ExportTableData, export_time: &str) -> (lines: Vec<String>)
    ensures
        lines.deep_view() == single_markdown_lines(database@, *table_data, export_time@),
{
    let mut lines: Vec<String> = Vec::new();
    push_line(&mut lines, title_line(database, table_data.name.as_str()));
    push_line(&mut lines, String::new());
    push_line(&mut lines, labelled("> \u{5bfc}\u{51fa}\u{65f6}\u{95f4}: ", export_time));
    push_line(&mut lines, labelled("> \u{5bfc}\u{51fa}\u{6a21}\u{5f0f}: ", export_mode_label(table_data.export_mode)));
    push_line(&mut lines, String::new());
    let ghost head = lines.deep_view();
    append_markdown_table_export(&mut lines, table_data);
    assert(lines.deep_view() =~= single_markdown_lines(database@, *table_data, export_time@));
    lines
}

fn multi_markdown_line_list(database: &str, tables: &[ExportTableData], export_time: &str, sample_limit: u32) -> (lines: Vec<String>)
    ensures
        lines.deep_view() == multi_markdown_lines(database@, tables@, export_time@, sample_limit),
{
    let mut lines: Vec<String> = Vec::new();
    let mut title = String::from_str("# ");
    push_str(&mut title, database);
    push_str(&mut title, " \u{591a}\u{8868}\u{5bfc}\u{51fa}");
    push_line(&mut lines, title);
    push_line(&mut lines, String::new());
    push_line(&mut lines, labelled("> \u{5bfc}\u{51fa}\u{65f6}\u{95f4}: ", export_time));
    push_line(&mut lines, labelled_count("> \u{8868}\u{6570}\u{91cf}: ", tables.len()));
    push_line(&mut lines, labelled_count("> Sample \u{8868}: ", count_export_mode(tables, ExportMode::Sample)));
    push_line(&mut lines, labelled_count("> \u{5168}\u{91cf}\u{8868}: ", count_export_mode(tables, ExportMode::Full)));
    push_line(&mut lines, labelled_count("> \u{6837}\u{4f8b}\u{884c}\u{6570}: ", crate::query::sanitize_limit(sample_limit) as usize));
    let ghost head = lines.deep_view();
    assert(head + tables_markdown_lines(database@, tables@.take(0)) =~= head);
    let mut i: usize = 0;
    while i < tables.len()
        invariant
            i <= tables@.len(),
            lines.deep_view() == head + tables_markdown_lines(database@, tables@.take(i as int)),
        decreases tables.len() - i,
    {
        push_line(&mut lines, String::new());
        push_line(&mut lines, String::from_str("---"));
        push_line(&mut lines, String::new());
        push_line(&mut lines, title_line(database, tables[i].name.as_str()));
        push_line(&mut lines, String::new());
        append_markdown_table_export(&mut lines, &tables[i]);
        assert(tables@.take(i + 1).drop_last() == tables@.take(i as int));
        assert(lines.deep_view() =~= head + tables_markdown_lines(database@, tables@.take(i + 1)));
        i = i + 1;
    }
    assert(tables@.take(i as int) == tables@);
    assert(lines.deep_view() =~= multi_markdown_lines(database@, tables@, export_time@, sample_limit));
    lines
}

/// The Markdown export of one table, its lines joined by line feeds.
pub fn generate_markdown_export(database: &str, table_data: &ExportTableData, export_time: &str) -> (s: String)
    ensures
        s@ == join(single_markdown_lines(database@, *table_data, export_time@), seq!['\n']),
{
    let lines = single_markdown_line_list(database, table_data, export_time);
    let s = join_strings(&lines, "\n");
    proof {
        reveal_strlit("\n");
        assert("\n"@ =~= seq!['\n']);
    }
    s
}

/// The Markdown export of several tables, its lines joined by line feeds.
pub fn generate_multi_markdown_export(database: &str, tables: &[ExportTableData], export_time: &str, sample_limit: u32) -> (s: String)
    ensures
        s@ == join(multi_markdown_lines(database@, tables@, export_time@, sample_limit), seq!['\n']),
{
    let lines = multi_markdown_line_list(database, tables, export_time, sample_limit);
    let s = join_strings(&lines, "\n");
    proof {
        reveal_strlit("\n");
        assert("\n"@ =~= seq!['\n']);
    }
    s
}

/// Writes the lines of one table to `out`, each followed by a line feed.
pub fn write_markdown_table_export(out: &mut String, table_data: &ExportTableData)
    ensures
        final(out)@ == old(out)@ + lines_text(markdown_table_lines(*table_data)),
{
    let mut lines: Vec<String> = Vec::new();
    append_markdown_table_export(&mut lines, table_data);
    assert(lines.deep_view() =~= markdown_table_lines(*table_data));
    push_lines(out, &lines);
}

/// Writes the Markdown export of `tables` to `out`, as
/// `markdown_export_lines` says, each line followed by a line feed.
pub fn write_markdown_export_content(out: &mut String, database: &str, tables: &[ExportTableData], export_time: &str, sample_limit: u32)
    ensures
        final(out)@ == old(out)@ + lines_text(markdown_export_lines(database@, tables@, export_time@, sample_limit)),
{
    if tables.len() == 1 {
        let lines = single_markdown_line_list(database, &tables[0], export_time);
        push_lines(out, &lines);
    } else {
        let lines = multi_markdown_line_list(database, tables, export_time, sample_limit);
        push_lines(out, &lines);
    }
}

/// What is written for a Markdown export is what the generating functions
/// return, followed by one line feed: the single-table text for one table,
/// the multi-table text otherwise.
pub proof fn lemma_markdown_write_matches_generate(database: Seq<char>, tables: Seq<ExportTableData>, export_time: Seq<char>, sample_limit: u32)
    ensures
        lines_text(markdown_export_lines(database, tables, export_time, sample_limit))
            == join(markdown_export_lines(database, tables, export_time, sample_limit), seq!['\n']) + seq!['\n'],
        tables.len() == 1 ==> markdown_export_lines(database, tables, export_time, sample_limit) == single_markdown_lines(database, tables[0], export_time),
        tables.len() != 1 ==> markdown_export_lines(database, tables, export_time, sample_limit) == multi_markdown_lines(database, tables, export_time, sample_limit),
{
    lemma_lines_text_join(markdown_export_lines(database, tables, export_time, sample_limit));
}

} // verus!
