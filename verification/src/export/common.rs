//! Labels, headings and counts shared by the export formats.

use vstd::prelude::*;
use crate::text::{decimal, push_char, push_str, push_decimal};
use crate::types::{ExportMode, ExportTableData};

verus! {

/// The name of a mode in the export files: `sample` or `full`.
pub open spec fn mode_value(mode: ExportMode) -> Seq<char> {
    match mode {
        ExportMode::Sample => "sample"@,
        ExportMode::Full => "full"@,
    }
}

/// The label of a mode in Markdown: `Sample` or 全量.
pub open spec fn mode_label(mode: ExportMode) -> Seq<char> {
    match mode {
        ExportMode::Sample => "Sample"@,
        ExportMode::Full => "\u{5168}\u{91cf}"@,
    }
}

/// The name of the exported rows: 样例数据 (sample data) or 全量数据 (all data).
pub open spec fn data_label(mode: ExportMode) -> Seq<char> {
    match mode {
        ExportMode::Sample => "\u{6837}\u{4f8b}\u{6570}\u{636e}"@,
        ExportMode::Full => "\u{5168}\u{91cf}\u{6570}\u{636e}"@,
    }
}

/// The heading above the exported rows, with their number: 样例数据 (前 n 条)
/// for a sample, 全量数据 (n 条) for a full export.
pub open spec fn data_heading(mode: ExportMode, row_count: nat) -> Seq<char> {
    match mode {
        ExportMode::Sample => "\u{6837}\u{4f8b}\u{6570}\u{636e} (\u{524d} "@ + decimal(row_count) + " \u{6761})"@,
        ExportMode::Full => "\u{5168}\u{91cf}\u{6570}\u{636e} ("@ + decimal(row_count) + " \u{6761})"@,
    }
}

/// The name of a mode in the export files, as `mode_value` says.
pub fn export_mode_value(export_mode: ExportMode) -> (s: &'static str)
    ensures
        s@ == mode_value(export_mode),
{
    match export_mode {
        ExportMode::Sample => "sample",
        ExportMode::Full => "full",
    }
}

/// The label of a mode in Markdown, as `mode_label` says.
pub fn export_mode_label(export_mode: ExportMode) -> (s: &'static str)
    ensures
        s@ == mode_label(export_mode),
{
    match export_mode {
        ExportMode::Sample => "Sample",
        ExportMode::Full => "\u{5168}\u{91cf}",
    }
}

/// The name of the exported rows, as `data_label` says.
pub fn export_data_label(export_mode: ExportMode) -> (s: &'static str)
    ensures
        s@ == data_label(export_mode),
{
    match export_mode {
        ExportMode::Sample => "\u{6837}\u{4f8b}\u{6570}\u{636e}",
        ExportMode::Full => "\u{5168}\u{91cf}\u{6570}\u{636e}",
    }
}

/// The heading above the exported rows, as `data_heading` says.
pub fn export_data_heading(export_mode: ExportMode, row_count: usize) -> (s: String)
    ensures
        s@ == data_heading(export_mode, row_count as nat),
{
    match export_mode {
        ExportMode::Sample => {
            let mut s = String::from_str("\u{6837}\u{4f8b}\u{6570}\u{636e} (\u{524d} ");
            push_decimal(&mut s, row_count as u64);
            push_str(&mut s, " \u{6761})");
            s
        }
        ExportMode::Full => {
            let mut s = String::from_str("\u{5168}\u{91cf}\u{6570}\u{636e} (");
            push_decimal(&mut s, row_count as u64);
            push_str(&mut s, " \u{6761})");
            s
        }
    }
}

/// The number of tables exported in `mode`.
pub open spec fn mode_count(tables: Seq<ExportTableData>, mode: ExportMode) -> nat
    decreases tables.len(),
{
    if tables.len() == 0 {
        0
    } else {
        mode_count(tables.drop_last(), mode) + if tables.last().export_mode == mode { 1nat } else { 0nat }
    }
}

/// The number of tables exported in `export_mode`, as `mode_count` says.
pub fn count_export_mode(tables: &[ExportTableData], export_mode: ExportMode) -> (n: usize)
    ensures
        n == mode_count(tables@, export_mode),
{
    let mut n: usize = 0;
    let mut i: usize = 0;
    while i < tables.len()
        invariant
            i <= tables@.len(),
            n == mode_count(tables@.take(i as int), export_mode),
            n <= i,
        decreases tables.len() - i,
    {
        assert(tables@.take(i + 1).drop_last() == tables@.take(i as int));
        if tables[i].export_mode == export_mode {
            n = n + 1;
        }
        i = i + 1;
    }
    assert(tables@.take(i as int) == tables@);
    n
}

/// Every table is exported either as a sample or whole: the two counts add
/// up to the number of tables.
pub proof fn lemma_mode_counts_add_up(tables: Seq<ExportTableData>)
    ensures
        mode_count(tables, ExportMode::Sample) + mode_count(tables, ExportMode::Full) == tables.len(),
    decreases tables.len(),
{
    if tables.len() > 0 {
        lemma_mode_counts_add_up(tables.drop_last());
    }
}

/// Appends `text` to the export `out`.
pub fn write_text(out: &mut String, text: &str)
    ensures
        final(out)@ == old(out)@ + text@,
{
    push_str(out, text);
}

/// Appends `line` and a line feed to the export `out`.
pub fn write_line(out: &mut String, line: &str)
    ensures
        final(out)@ == old(out)@ + line@ + seq!['\n'],
{
    write_text(out, line);
    push_char(out, '\n');
}

} // verus!
