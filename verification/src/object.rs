//! Rows as the database returns them, and JSON objects built from them.

use vstd::prelude::*;
use crate::value::{Cell, CellValue, SqlValue, value_cell, display_text, value_to_json, display_string};

verus! {

/// One row of a query result: the column names and, at the same index, the
/// value of each column (`None` where the driver has no value there).
#[derive(Debug)]
pub struct SqlRow {
    pub columns: Vec<String>,
    pub values: Vec<Option<SqlValue>>,
}

/// The value at `index` of a row, `None` past the end.
pub open spec fn field_at(values: Seq<Option<SqlValue>>, index: int) -> Option<SqlValue> {
    if 0 <= index < values.len() { values[index] } else { None }
}

/// The cell of an optional database value: null where there is none.
pub open spec fn optional_cell(value: Option<SqlValue>) -> Cell {
    match value {
        Some(v) => value_cell(v),
        None => Cell::Null,
    }
}

/// A JSON object as a list of entries; a later entry for a key hides the
/// earlier ones, as successive insertions into a map would.
#[derive(Debug)]
pub struct JsonObject {
    pub entries: Vec<(String, CellValue)>,
}

impl View for JsonObject {
    type V = Seq<(Seq<char>, Cell)>;

    open spec fn view(&self) -> Seq<(Seq<char>, Cell)> {
        self.entries.deep_view()
    }
}

impl DeepView for JsonObject {
    type V = Seq<(Seq<char>, Cell)>;

    open spec fn deep_view(&self) -> Seq<(Seq<char>, Cell)> {
        self@
    }
}

/// The value of `key` in an object: that of its last entry for `key`.
pub open spec fn lookup(entries: Seq<(Seq<char>, Cell)>, key: Seq<char>) -> Option<Cell>
    decreases entries.len(),
{
    if entries.len() == 0 {
        None
    } else if entries.last().0 == key {
        Some(entries.last().1)
    } else {
        lookup(entries.drop_last(), key)
    }
}

/// The value of `key` in `object`, as `lookup` says.
pub fn object_get<'a>(object: &'a JsonObject, key: &str) -> (r: Option<&'a CellValue>)
    ensures
        match r {
            Some(v) => lookup(object@, key@) == Some(v@),
            None => lookup(object@, key@) is None,
        },
{
    let wanted = String::from_str(key);
    let mut i = object.entries.len();
    assert(object@.take(i as int) == object@);
    while i > 0
        invariant
            i <= object@.len(),
            wanted@ == key@,
            lookup(object@, key@) == lookup(object@.take(i as int), key@),
        decreases i,
    {
        let entry = &object.entries[i - 1];
        assert(object@.take(i as int).drop_last() == object@.take(i - 1));
        assert(object@[i - 1] == (entry.0@, entry.1@));
        assert(object@.take(i as int).last() == object@[i - 1]);
        if entry.0 == wanted {
            return Some(&entry.1);
        }
        i = i - 1;
    }
    None
}

/// The object of a row: one entry per column, in column order, each with
/// the cell of that column's value.
pub open spec fn row_entries(row: SqlRow) -> Seq<(Seq<char>, Cell)> {
    Seq::new(row.columns@.len(), |i: int| (row.columns@[i]@, optional_cell(field_at(row.values@, i))))
}

/// The cell of the value at `index` of `row`: null where it has none.
pub fn field_cell(row: &SqlRow, index: usize) -> (c: CellValue)
    ensures
        c@ == optional_cell(field_at(row.values@, index as int)),
{
    if index < row.values.len() {
        match &row.values[index] {
            Some(v) => value_to_json(v),
            None => CellValue::Null,
        }
    } else {
        CellValue::Null
    }
}

/// The object of a row, as `row_entries` says.
pub fn row_to_object(row: &SqlRow) -> (object: JsonObject)
    ensures
        object@ == row_entries(*row),
{
    let mut entries: Vec<(String, CellValue)> = Vec::new();
    let mut i: usize = 0;
    while i < row.columns.len()
        invariant
            i <= row.columns@.len(),
            entries.deep_view() == row_entries(*row).take(i as int),
        decreases row.columns.len() - i,
    {
        let cell = field_cell(row, i);
        let name = row.columns[i].clone();
        let ghost before = entries.deep_view();
        entries.push((name, cell));
        assert(entries.deep_view() =~= before.push((name@, cell@)));
        assert(entries.deep_view() =~= row_entries(*row).take(i + 1));
        i = i + 1;
    }
    assert(row_entries(*row).take(i as int) =~= row_entries(*row));
    JsonObject { entries }
}

/// The text of `key` in an object: none when absent or null, the characters
/// of a string, the printed text of anything else.
pub open spec fn text_of(entries: Seq<(Seq<char>, Cell)>, key: Seq<char>) -> Option<Seq<char>> {
    match lookup(entries, key) {
        None => None,
        Some(Cell::Null) => None,
        Some(Cell::String(s)) => Some(s),
        Some(c) => Some(display_text(c)),
    }
}

/// The text of `key` in `object`, as `text_of` says.
pub fn object_get_string_opt(object: &JsonObject, key: &str) -> (r: Option<String>)
    ensures
        match r {
            Some(s) => text_of(object@, key@) == Some(s@),
            None => text_of(object@, key@) is None,
        },
{
    match object_get(object, key) {
        None => None,
        Some(CellValue::Null) => None,
        Some(CellValue::String(s)) => Some(s.clone()),
        Some(other) => Some(display_string(other)),
    }
}

/// The text of `key` in `object`, empty where `text_of` gives none.
pub fn object_get_string(object: &JsonObject, key: &str) -> (s: String)
    ensures
        s@ == match text_of(object@, key@) {
            Some(t) => t,
            None => Seq::empty(),
        },
{
    match object_get_string_opt(object, key) {
        Some(s) => s,
        None => String::new(),
    }
}

/// The value of a decimal numeral.
pub open spec fn numeral_value(s: Seq<char>) -> nat
    decreases s.len(),
{
    if s.len() == 0 {
        0
    } else {
        numeral_value(s.drop_last()) * 10 + ((s.last() as int - '0' as int) as nat)
    }
}

/// Whether `s` is one or more ASCII digits.
pub open spec fn is_numeral(s: Seq<char>) -> bool {
    s.len() > 0 && forall|i: int| 0 <= i < s.len() ==> '0' <= #[trigger] s[i] && s[i] <= '9'
}

/// The unsigned 64-bit integer that the numeral `s` denotes, if it is one.
pub open spec fn numeral_u64(s: Seq<char>) -> Option<u64> {
    if is_numeral(s) && numeral_value(s) <= u64::MAX { Some(numeral_value(s) as u64) } else { None }
}

/// What parsing `s` as a `u64` gives: an optional `+`, then a numeral whose
/// value fits.
pub open spec fn parsed_u64(s: Seq<char>) -> Option<u64> {
    if s.len() > 0 && s[0] == '+' { numeral_u64(s.drop_first()) } else { numeral_u64(s) }
}

/// The integer that the numeral `s[from..]` denotes, if it is one that fits.
fn numeral_from(s: &[char], from: usize) -> (r: Option<u64>)
    requires
        from <= s@.len(),
    ensures
        r == numeral_u64(s@.subrange(from as int, s@.len() as int)),
{
    let ghost t = s@.subrange(from as int, s@.len() as int);
    if from == s.len() {
        return None;
    }
    let mut value: u64 = 0;
    let mut overflow = false;
    let mut digits = true;
    let mut i = from;
    while i < s.len()
        invariant
            from <= i <= s@.len(),
            t == s@.subrange(from as int, s@.len() as int),
            digits <==> forall|k: int| from <= k < i ==> '0' <= #[trigger] s@[k] && s@[k] <= '9',
            digits && !overflow ==> value == numeral_value(s@.subrange(from as int, i as int)),
            digits && overflow ==> numeral_value(s@.subrange(from as int, i as int)) > u64::MAX,
        decreases s.len() - i,
    {
        let c = s[i];
        let ghost prefix = s@.subrange(from as int, i as int);
        assert(s@.subrange(from as int, i + 1).drop_last() == prefix);
        if c < '0' || c > '9' {
            digits = false;
        } else if digits {
            let d = (c as u32 - '0' as u32) as u64;
            let ghost before = numeral_value(prefix);
            assert(numeral_value(s@.subrange(from as int, i + 1)) == before * 10 + d);
            if overflow {
                assert(before * 10 + d > u64::MAX) by (nonlinear_arith)
                    requires before > u64::MAX;
            } else if value > (u64::MAX - d) / 10 {
                overflow = true;
                assert(before * 10 + d > u64::MAX) by (nonlinear_arith)
                    requires before == value, value > (u64::MAX - d) / 10, d < 10;
            } else {
                assert(value * 10 + d <= u64::MAX) by (nonlinear_arith)
                    requires value <= (u64::MAX - d) / 10, d < 10;
                value = value * 10 + d;
            }
        }
        i = i + 1;
    }
    assert(s@.subrange(from as int, i as int) == t);
    if !digits {
        assert(!is_numeral(t)) by {
            let k = choose|k: int| from <= k < i && !('0' <= #[trigger] s@[k] && s@[k] <= '9');
            assert(t[k - from] == s@[k]);
        }
        None
    } else if overflow {
        None
    } else {
        assert(is_numeral(t)) by {
            assert forall|j: int| 0 <= j < t.len() implies '0' <= #[trigger] t[j] && t[j] <= '9' by {
                assert(t[j] == s@[from + j]);
            }
        }
        Some(value)
    }
}

/// `s` parsed as a `u64`, as `parsed_u64` says.
pub fn parse_u64(s: &str) -> (r: Option<u64>)
    ensures
        r == parsed_u64(s@),
{
    let cs = crate::text::chars_of(s);
    if cs.len() > 0 && cs[0] == '+' {
        assert(cs@.subrange(1, cs@.len() as int) == s@.drop_first());
        numeral_from(cs.as_slice(), 1)
    } else {
        assert(cs@.subrange(0, cs@.len() as int) == s@);
        numeral_from(cs.as_slice(), 0)
    }
}

/// The unsigned integer of `key` in an object: a number that is a
/// non-negative integer, or a string that parses as one; else zero.
pub open spec fn u64_of(entries: Seq<(Seq<char>, Cell)>, key: Seq<char>) -> u64 {
    let found = match lookup(entries, key) {
        Some(Cell::Number(t)) => numeral_u64(t),
        Some(Cell::String(s)) => parsed_u64(s),
        _ => None,
    };
    match found {
        Some(n) => n,
        None => 0,
    }
}

/// The unsigned integer of `key` in `object`, as `u64_of` says.
pub fn object_get_u64(object: &JsonObject, key: &str) -> (n: u64)
    ensures
        n == u64_of(object@, key@),
{
    let found = match object_get(object, key) {
        Some(CellValue::Number(t)) => {
            let cs = crate::text::chars_of(t.as_str());
            assert(cs@.subrange(0, cs@.len() as int) == t@);
            numeral_from(cs.as_slice(), 0)
        }
        Some(CellValue::String(s)) => parse_u64(s.as_str()),
        _ => None,
    };
    match found {
        Some(n) => n,
        None => 0,
    }
}

} // verus!
