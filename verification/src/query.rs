//! The SQL text that the exporter sends to the server.

use vstd::prelude::*;
use crate::text::{
    flat_map_chars, lemma_flat_map_step, chars_of, push_char, push_str, push_decimal, decimal, read_quoted,
    lemma_read_quoted_inverts,
};
use crate::types::ExportMode;

verus! {

/// A backtick doubled, any other character kept.
pub open spec fn backtick_escape(c: char) -> Seq<char> {
    if c == '`' { seq!['`', '`'] } else { seq![c] }
}

/// Doubling of backticks, character by character.
pub open spec fn backtick_escaper() -> spec_fn(char) -> Seq<char> {
    |c: char| backtick_escape(c)
}

/// `value` as a quoted MySQL identifier: in backticks, with each backtick
/// inside doubled.
pub open spec fn quoted_identifier(value: Seq<char>) -> Seq<char> {
    seq!['`'] + flat_map_chars(value, backtick_escaper()) + seq!['`']
}

/// Appends `value` as a quoted identifier to `out`.
pub fn push_quoted_identifier(out: &mut String, value: &str)
    ensures
        final(out)@ == old(out)@ + quoted_identifier(value@),
{
    let ghost f = backtick_escaper();
    let ghost start = out@;
    let cs = chars_of(value);
    push_char(out, '`');
    let mut i: usize = 0;
    while i < cs.len()
        invariant
            i <= cs@.len(),
            cs@ == value@,
            f == backtick_escaper(),
            out@ == start + seq!['`'] + flat_map_chars(cs@.take(i as int), f),
        decreases cs.len() - i,
    {
        let c = cs[i];
        let ghost before = out@;
        assert(f(c) == backtick_escape(c));
        if c == '`' {
            push_char(out, '`');
            push_char(out, '`');
        } else {
            push_char(out, c);
        }
        assert(out@ =~= before + backtick_escape(c));
        proof {
            lemma_flat_map_step(cs@, f, i as int);
        }
        assert(out@ =~= start + seq!['`'] + flat_map_chars(cs@.take(i + 1), f));
        i = i + 1;
    }
    assert(cs@.take(i as int) == value@);
    push_char(out, '`');
    assert(out@ =~= start + quoted_identifier(value@));
}

/// A quoted identifier reads back as the value it quotes: it opens and
/// closes with a backtick, and the backticks between come in pairs that
/// read as one, so no backtick of the value ends the quoting early.
pub proof fn lemma_quoted_identifier_reads_back(value: Seq<char>)
    ensures
        read_quoted(quoted_identifier(value), '`') == Some(value),
{
    let f = backtick_escaper();
    assert forall|c: char| #[trigger] f(c) == (if c == '`' { seq!['`', '`'] } else { seq![c] }) by {}
    lemma_read_quoted_inverts(value, '`', f);
}

/// `value` as a quoted MySQL identifier, as `quoted_identifier` says; it
/// reads back as `value`.
pub fn quote_identifier(value: &str) -> (s: String)
    ensures
        s@ == quoted_identifier(value@),
        read_quoted(s@, '`') == Some(value@),
{
    let mut s = String::new();
    push_quoted_identifier(&mut s, value);
    proof {
        lemma_quoted_identifier_reads_back(value@);
    }
    s
}

/// The query that lists the columns of `database.table` with their full
/// descriptions.
pub open spec fn full_columns_query_text(database: Seq<char>, table: Seq<char>) -> Seq<char> {
    "SHOW FULL COLUMNS FROM "@ + quoted_identifier(database) + seq!['.'] + quoted_identifier(table)
}

/// The query that lists the columns of `database.table`, as
/// `full_columns_query_text` says.
pub fn full_columns_query(database: &str, table: &str) -> (q: String)
    ensures
        q@ == full_columns_query_text(database@, table@),
{
    let mut q = String::from_str("SHOW FULL COLUMNS FROM ");
    push_quoted_identifier(&mut q, database);
    push_char(&mut q, '.');
    push_quoted_identifier(&mut q, table);
    q
}

/// The query that asks for the `CREATE TABLE` statement of
/// `database.table`.
pub open spec fn create_table_query_text(database: Seq<char>, table: Seq<char>) -> Seq<char> {
    "SHOW CREATE TABLE "@ + quoted_identifier(database) + seq!['.'] + quoted_identifier(table)
}

/// The query that asks for the `CREATE TABLE` statement of
/// `database.table`, as `create_table_query_text` says.
pub fn create_table_query(database: &str, table: &str) -> (q: String)
    ensures
        q@ == create_table_query_text(database@, table@),
{
    let mut q = String::from_str("SHOW CREATE TABLE ");
    push_quoted_identifier(&mut q, database);
    push_char(&mut q, '.');
    push_quoted_identifier(&mut q, table);
    q
}

/// `limit` held between one and a thousand.
pub open spec fn clamped_limit(limit: u32) -> u32 {
    if limit < 1 { 1 } else if limit > 1000 { 1000 } else { limit }
}

/// The clamped limit is the value in one to a thousand nearest to the
/// limit asked for: a limit in range is kept, zero becomes one, and a
/// larger one becomes a thousand.
pub proof fn lemma_clamped_limit_nearest(limit: u32)
    ensures
        1 <= clamped_limit(limit) <= 1000,
        1 <= limit <= 1000 ==> clamped_limit(limit) == limit,
        limit == 0 ==> clamped_limit(limit) == 1,
        limit > 1000 ==> clamped_limit(limit) == 1000,
{
}

/// `limit` held between one and a thousand, as `clamped_limit` says.
pub fn sanitize_limit(limit: u32) -> (r: u32)
    ensures
        r == clamped_limit(limit),
        1 <= r <= 1000,
{
    if limit < 1 { 1 } else if limit > 1000 { 1000 } else { limit }
}

/// The query that selects every column of `database.table`, with a row
/// limit when one is given.
pub open spec fn select_query(database: Seq<char>, table: Seq<char>, limit: Option<u32>) -> Seq<char> {
    let base = "SELECT * FROM "@ + quoted_identifier(database) + seq!['.'] + quoted_identifier(table);
    match limit {
        Some(l) => base + " LIMIT "@ + decimal(l as nat),
        None => base,
    }
}

/// The query that selects every column of `database.table`, as
/// `select_query` says.
pub fn build_select_query(database: &str, table: &str, limit: Option<u32>) -> (q: String)
    ensures
        q@ == select_query(database@, table@, limit),
{
    let mut q = String::from_str("SELECT * FROM ");
    push_quoted_identifier(&mut q, database);
    push_char(&mut q, '.');
    push_quoted_identifier(&mut q, table);
    if let Some(l) = limit {
        push_str(&mut q, " LIMIT ");
        push_decimal(&mut q, l as u64);
    }
    q
}

/// The query that reads the rows of a table for an export: a sample is
/// limited to the clamped limit, a full export is not limited.
pub open spec fn export_data_query(database: Seq<char>, table: Seq<char>, mode: ExportMode, sample_limit: u32) -> Seq<char> {
    match mode {
        ExportMode::Sample => select_query(database, table, Some(clamped_limit(sample_limit))),
        ExportMode::Full => select_query(database, table, None),
    }
}

/// The query that reads the rows of a table for an export, as
/// `export_data_query` says.
pub fn build_export_data_query(database: &str, table: &str, export_mode: ExportMode, sample_limit: u32) -> (q: String)
    ensures
        q@ == export_data_query(database@, table@, export_mode, sample_limit),
{
    match export_mode {
        ExportMode::Sample => build_select_query(database, table, Some(sanitize_limit(sample_limit))),
        ExportMode::Full => build_select_query(database, table, None),
    }
}

} // verus!
