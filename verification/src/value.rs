//! Cell values of sampled rows, the values that the database hands back, and
//! the conversions between them.

use vstd::prelude::*;
use vstd::utf8::*;
use crate::text::{decimal, zero_padded, push_char, push_str, push_decimal, push_zero_padded, decimal_string, is_ascii_digit, digit_char};

verus! {

/// A JSON value as the exporters see a table cell.
///
/// `Number` holds the text that serde_json prints for the number; `Nested`
/// holds the compact JSON text of an array or an object.
#[derive(Debug, PartialEq, Eq)]
pub enum CellValue {
    Null,
    Bool(bool),
    Number(String),
    String(String),
    Nested(String),
}

/// The mathematical content of a `CellValue`.
pub enum Cell {
    Null,
    Bool(bool),
    Number(Seq<char>),
    String(Seq<char>),
    Nested(Seq<char>),
}

impl View for CellValue {
    type V = Cell;

    open spec fn view(&self) -> Cell {
        match self {
            CellValue::Null => Cell::Null,
            CellValue::Bool(b) => Cell::Bool(*b),
            CellValue::Number(t) => Cell::Number(t@),
            CellValue::String(s) => Cell::String(s@),
            CellValue::Nested(t) => Cell::Nested(t@),
        }
    }
}

impl DeepView for CellValue {
    type V = Cell;

    open spec fn deep_view(&self) -> Cell {
        self@
    }
}

impl Clone for CellValue {
    fn clone(&self) -> (r: Self)
        ensures
            r@ == self@,
    {
        match self {
            CellValue::Null => CellValue::Null,
            CellValue::Bool(b) => CellValue::Bool(*b),
            CellValue::Number(t) => CellValue::Number(t.clone()),
            CellValue::String(s) => CellValue::String(s.clone()),
            CellValue::Nested(t) => CellValue::Nested(t.clone()),
        }
    }
}


/// A value as the database hands it back; a floating-point value is held as
/// the JSON text of the number it converts to, or `None` when it has none.
#[derive(Debug)]
pub enum SqlValue {
    Null,
    Bytes(Vec<u8>),
    Int(i64),
    UInt(u64),
    Real(Option<String>),
    /// year, month, day, hour, minutes, seconds, microseconds
    Date(u16, u8, u8, u8, u8, u8, u32),
    /// negative, days, hours, minutes, seconds, microseconds
    Time(bool, u32, u8, u8, u8, u32),
}

/// The text that a value that is not a string is printed as (for a string,
/// its characters).
pub open spec fn display_text(c: Cell) -> Seq<char> {
    match c {
        Cell::Null => "null"@,
        Cell::Bool(b) => if b { "true"@ } else { "false"@ },
        Cell::Number(t) => t,
        Cell::String(s) => s,
        Cell::Nested(t) => t,
    }
}

/// The text that `value` is printed as, as `display_text` says.
pub fn display_string(value: &CellValue) -> (s: String)
    ensures
        s@ == display_text(value@),
{
    match value {
        CellValue::Null => String::from_str("null"),
        CellValue::Bool(b) => if *b { String::from_str("true") } else { String::from_str("false") },
        CellValue::Number(t) => t.clone(),
        CellValue::String(t) => t.clone(),
        CellValue::Nested(t) => t.clone(),
    }
}

/// Lowercase hexadecimal digit of `n` (below sixteen).
pub open spec fn hex_digit(n: nat) -> char {
    if n < 10 { crate::text::digit_char(n) }
    else if n == 10 { 'a' } else if n == 11 { 'b' } else if n == 12 { 'c' }
    else if n == 13 { 'd' } else if n == 14 { 'e' } else { 'f' }
}

/// Two lowercase hexadecimal digits per byte.
pub open spec fn hex(bytes: Seq<u8>) -> Seq<char>
    decreases bytes.len(),
{
    if bytes.len() == 0 {
        Seq::empty()
    } else {
        hex(bytes.drop_last()) + seq![hex_digit((bytes.last() / 16) as nat), hex_digit((bytes.last() % 16) as nat)]
    }
}

/// Whether `c` is a lowercase hexadecimal digit.
pub open spec fn is_lower_hex_digit(c: char) -> bool {
    ('0' <= c && c <= '9') || ('a' <= c && c <= 'f')
}

/// The number that the hexadecimal digit `c` stands for, in either case.
pub open spec fn hex_value(c: char) -> nat {
    if c == '0' { 0 } else if c == '1' { 1 } else if c == '2' { 2 } else if c == '3' { 3 }
    else if c == '4' { 4 } else if c == '5' { 5 } else if c == '6' { 6 } else if c == '7' { 7 }
    else if c == '8' { 8 } else if c == '9' { 9 } else if c == 'a' || c == 'A' { 10 }
    else if c == 'b' || c == 'B' { 11 } else if c == 'c' || c == 'C' { 12 }
    else if c == 'd' || c == 'D' { 13 } else if c == 'e' || c == 'E' { 14 } else { 15 }
}

/// The bytes that hexadecimal text stands for: each pair of digits read as
/// one byte, the high digit first.
pub open spec fn unhex(s: Seq<char>) -> Seq<u8>
    decreases s.len(),
{
    if s.len() < 2 {
        Seq::empty()
    } else {
        unhex(s.subrange(0, s.len() - 2)).push((16 * hex_value(s[s.len() - 2]) + hex_value(s[s.len() - 1])) as u8)
    }
}

proof fn lemma_hex_digit_value(n: nat)
    requires
        n < 16,
    ensures
        is_lower_hex_digit(hex_digit(n)),
        hex_value(hex_digit(n)) == n,
{
}

/// The hexadecimal notation of bytes has two lowercase digits per byte and
/// reads back as those bytes.
pub proof fn lemma_hex_reads_back(bytes: Seq<u8>)
    ensures
        hex(bytes).len() == 2 * bytes.len(),
        forall|i: int| 0 <= i < hex(bytes).len() ==> is_lower_hex_digit(#[trigger] hex(bytes)[i]),
        unhex(hex(bytes)) == bytes,
    decreases bytes.len(),
{
    if bytes.len() > 0 {
        let front = bytes.drop_last();
        let b = bytes.last();
        lemma_hex_reads_back(front);
        let hi = (b / 16) as nat;
        let lo = (b % 16) as nat;
        lemma_hex_digit_value(hi);
        lemma_hex_digit_value(lo);
        let h = hex(bytes);
        let p = hex(front);
        assert(h == p + seq![hex_digit(hi), hex_digit(lo)]);
        assert forall|i: int| 0 <= i < h.len() implies is_lower_hex_digit(#[trigger] h[i]) by {
            if i < p.len() {
                assert(h[i] == p[i]);
            }
        }
        assert(h.subrange(0, h.len() - 2) =~= p);
        assert(h[h.len() - 2] == hex_digit(hi));
        assert(h[h.len() - 1] == hex_digit(lo));
        assert(16 * hi + lo == b);
        assert(((16 * hi + lo) as u8) == b);
        assert(front.push(b) =~= bytes);
    } else {
        assert(hex(bytes) =~= Seq::<char>::empty());
        assert(bytes =~= Seq::<u8>::empty());
    }
}

fn hex_char(n: u8) -> (c: char)
    requires
        n < 16,
    ensures
        c == hex_digit(n as nat),
{
    if n < 10 { crate::text::digit(n as u64) }
    else if n == 10 { 'a' } else if n == 11 { 'b' } else if n == 12 { 'c' }
    else if n == 13 { 'd' } else if n == 14 { 'e' } else { 'f' }
}

/// Lowercase hexadecimal notation of `bytes`; it reads back as `bytes`.
pub fn to_hex(bytes: &[u8]) -> (s: String)
    ensures
        s@ == hex(bytes@),
        unhex(s@) == bytes@,
{
    proof {
        lemma_hex_reads_back(bytes@);
    }
    let mut s = String::new();
    let mut i: usize = 0;
    while i < bytes.len()
        invariant
            i <= bytes@.len(),
            s@ == hex(bytes@.take(i as int)),
        decreases bytes.len() - i,
    {
        let byte = bytes[i];
        assert(byte >> 4 == byte / 16 && byte & 0x0f == byte % 16) by (bit_vector);
        push_char(&mut s, hex_char(byte >> 4));
        push_char(&mut s, hex_char(byte & 0x0f));
        assert(bytes@.take(i + 1).drop_last() == bytes@.take(i as int));
        i = i + 1;
    }
    assert(bytes@.take(bytes@.len() as int) == bytes@);
    s
}

/// Calls `String::from_utf8` on a copy of `bytes`. Claimed: a string is
/// returned exactly when the bytes are valid UTF-8, and it holds the
/// characters they encode.
#[verifier::external_body]
pub(crate) fn utf8_string(bytes: &[u8]) -> (r: Option<String>)
    ensures
        r is Some <==> valid_utf8(bytes@),
        r matches Some(s) ==> s@ == decode_utf8(bytes@),
{
    String::from_utf8(bytes.to_vec()).ok()
}

/// The text of `bytes`: the characters they encode when they are valid
/// UTF-8, else `0x` and their hexadecimal notation.
pub open spec fn bytes_text(bytes: Seq<u8>) -> Seq<char> {
    if valid_utf8(bytes) { decode_utf8(bytes) } else { "0x"@ + hex(bytes) }
}

/// The text of `bytes`, as `bytes_text` says.
pub fn bytes_to_string(bytes: &[u8]) -> (s: String)
    ensures
        s@ == bytes_text(bytes@),
{
    match utf8_string(bytes) {
        Some(s) => s,
        None => {
            let mut s = String::from_str("0x");
            let h = to_hex(bytes);
            push_str(&mut s, h.as_str());
            s
        }
    }
}

/// Decimal notation of a signed integer.
pub open spec fn signed_decimal(n: int) -> Seq<char> {
    if n < 0 { seq!['-'] + decimal((-n) as nat) } else { decimal(n as nat) }
}

/// Decimal notation of `n`.
pub fn i64_to_string(n: i64) -> (s: String)
    ensures
        s@ == signed_decimal(n as int),
{
    let mut s = String::new();
    if n < 0 {
        push_char(&mut s, '-');
        let magnitude: u64 = ((-(n + 1)) as u64) + 1;
        push_decimal(&mut s, magnitude);
    } else {
        push_decimal(&mut s, n as u64);
    }
    s
}

/// `n` in decimal, with zeros in front up to `width` characters.
#[verifier::opaque]
pub open spec fn padded(n: nat, width: nat) -> Seq<char> {
    zero_padded(decimal(n), width)
}

fn push_padded(out: &mut String, n: u64, width: usize)
    ensures
        final(out)@ == old(out)@ + padded(n as nat, width as nat),
{
    let digits = decimal_string(n);
    push_zero_padded(out, digits.as_str(), width);
    proof {
        reveal(padded);
    }
}

/// Text of a date and time: the date alone when the time of day is zero,
/// the microseconds only when they are not zero.
pub open spec fn date_text(year: nat, month: nat, day: nat, hour: nat, minute: nat, second: nat, micros: nat) -> Seq<char> {
    let date = padded(year, 4) + seq!['-'] + padded(month, 2) + seq!['-'] + padded(day, 2);
    let time = padded(hour, 2) + seq![':'] + padded(minute, 2) + seq![':'] + padded(second, 2);
    if hour == 0 && minute == 0 && second == 0 && micros == 0 {
        date
    } else if micros == 0 {
        date + seq![' '] + time
    } else {
        date + seq![' '] + time + seq!['.'] + padded(micros, 6)
    }
}

proof fn lemma_decimal_digits(n: nat)
    ensures
        decimal(n).len() > 0,
        forall|i: int| 0 <= i < decimal(n).len() ==> is_ascii_digit(#[trigger] decimal(n)[i]),
    decreases n,
{
    if n >= 10 {
        lemma_decimal_digits(n / 10);
        let d = digit_char(n % 10);
        assert(is_ascii_digit(d));
        assert forall|i: int| 0 <= i < decimal(n).len() implies is_ascii_digit(#[trigger] decimal(n)[i]) by {
            if i < decimal(n / 10).len() {
                assert(decimal(n)[i] == decimal(n / 10)[i]);
            }
        }
    } else {
        assert(is_ascii_digit(digit_char(n)));
    }
}

/// Zero-padded decimal notation is made of ASCII digits only.
proof fn lemma_padded_digits(n: nat, width: nat)
    ensures
        forall|i: int| 0 <= i < padded(n, width).len() ==> is_ascii_digit(#[trigger] padded(n, width)[i]),
{
    reveal(padded);
    lemma_decimal_digits(n);
    let digits = decimal(n);
    if digits.len() < width {
        let zeros = Seq::new((width - digits.len()) as nat, |i: int| '0');
        assert forall|i: int| 0 <= i < padded(n, width).len() implies is_ascii_digit(#[trigger] padded(n, width)[i]) by {
            assert(padded(n, width) == zeros + digits);
            if i < zeros.len() {
                assert(padded(n, width)[i] == '0');
            } else {
                assert(padded(n, width)[i] == digits[i - zeros.len()]);
            }
        }
    }
}

/// A database date and time is written as its date `YYYY-MM-DD`; unless its
/// time of day is midnight with no microseconds, a space and `HH:MM:SS`
/// follow, then `.` and six digits of microseconds when they are not zero.
/// So the text holds a space exactly when the time of day is not midnight:
/// a time is never dropped, and midnight never gets one.
pub proof fn lemma_date_value_keeps_its_time(y: u16, mo: u8, d: u8, h: u8, mi: u8, sec: u8, us: u32)
    ensures
        ({
            let date = padded(y as nat, 4) + seq!['-'] + padded(mo as nat, 2) + seq!['-'] + padded(d as nat, 2);
            let clock = padded(h as nat, 2) + seq![':'] + padded(mi as nat, 2) + seq![':'] + padded(sec as nat, 2);
            let fraction: Seq<char> = if us == 0 { Seq::empty() } else { seq!['.'] + padded(us as nat, 6) };
            let midnight = h == 0 && mi == 0 && sec == 0 && us == 0;
            &&& value_cell(SqlValue::Date(y, mo, d, h, mi, sec, us)) matches Cell::String(t)
                && (t.contains(' ') <==> !midnight)
                && (midnight ==> t == date)
                && (!midnight ==> t == date + seq![' '] + clock + fraction)
        }),
{
    let date = padded(y as nat, 4) + seq!['-'] + padded(mo as nat, 2) + seq!['-'] + padded(d as nat, 2);
    let clock = padded(h as nat, 2) + seq![':'] + padded(mi as nat, 2) + seq![':'] + padded(sec as nat, 2);
    let fraction: Seq<char> = if us == 0 { Seq::empty() } else { seq!['.'] + padded(us as nat, 6) };
    let midnight = h == 0 && mi == 0 && sec == 0 && us == 0;
    let t = date_text(y as nat, mo as nat, d as nat, h as nat, mi as nat, sec as nat, us as nat);
    lemma_padded_digits(y as nat, 4);
    lemma_padded_digits(mo as nat, 2);
    lemma_padded_digits(d as nat, 2);
    lemma_padded_digits(h as nat, 2);
    lemma_padded_digits(mi as nat, 2);
    lemma_padded_digits(sec as nat, 2);
    lemma_padded_digits(us as nat, 6);
    let p1 = padded(y as nat, 4);
    let p2 = padded(mo as nat, 2);
    let p3 = padded(d as nat, 2);
    assert forall|i: int| 0 <= i < date.len() implies #[trigger] date[i] != ' ' by {
        if i < p1.len() {
            assert(date[i] == p1[i]);
        } else if i == p1.len() {
        } else if i < p1.len() + 1 + p2.len() {
            assert(date[i] == p2[i - p1.len() - 1]);
        } else if i == p1.len() + 1 + p2.len() {
        } else {
            assert(date[i] == p3[i - p1.len() - 2 - p2.len()]);
        }
    }
    if midnight {
        assert(t == date);
        assert(!t.contains(' '));
    } else {
        if us == 0 {
            assert(t =~= date + seq![' '] + clock + fraction);
        } else {
            assert(t =~= date + seq![' '] + clock + fraction);
        }
        assert(t[date.len() as int] == ' ');
        assert(t.contains(' '));
    }
}

/// Text of a duration: a minus sign when negative, the hours counted with the
/// days (in 32-bit unsigned arithmetic that wraps around, as the compiled
/// program computes them), the microseconds only when they are not zero.
pub open spec fn duration_text(negative: bool, days: nat, hours: nat, minutes: nat, seconds: nat, micros: nat) -> Seq<char> {
    let sign: Seq<char> = if negative { seq!['-'] } else { Seq::empty() };
    let base = sign + padded(((days * 24 + hours) % 0x1_0000_0000) as nat, 2) + seq![':'] + padded(minutes, 2) + seq![':'] + padded(seconds, 2);
    if micros == 0 { base } else { base + seq!['.'] + padded(micros, 6) }
}

/// A database time is written as a minus sign when negative, the hours of
/// its days and hours together (taken modulo 2^32 as the compiled program
/// computes them), then `:MM:SS`, then `.` and six digits of microseconds
/// when they are not zero.
pub proof fn lemma_time_value_text(neg: bool, days: u32, h: u8, mi: u8, sec: u8, us: u32)
    ensures
        value_cell(SqlValue::Time(neg, days, h, mi, sec, us)) == Cell::String(
            (if neg { seq!['-'] } else { Seq::<char>::empty() })
            + padded(((days as int * 24 + h as int) % 0x1_0000_0000) as nat, 2) + seq![':'] + padded(mi as nat, 2)
            + seq![':'] + padded(sec as nat, 2)
            + (if us == 0 { Seq::<char>::empty() } else { seq!['.'] + padded(us as nat, 6) })),
{
    let sign: Seq<char> = if neg { seq!['-'] } else { Seq::empty() };
    let hours_nat: nat = (((days as nat) * 24 + (h as nat)) % 0x1_0000_0000) as nat;
    let hours_int: nat = ((days as int * 24 + h as int) % 0x1_0000_0000) as nat;
    assert(hours_nat == hours_int);
    let base = sign + padded(hours_int, 2) + seq![':'] + padded(mi as nat, 2) + seq![':'] + padded(sec as nat, 2);
    let t = duration_text(neg, days as nat, h as nat, mi as nat, sec as nat, us as nat);
    if us == 0 {
        assert(t =~= base + Seq::<char>::empty());
    } else {
        assert(t =~= base + (seq!['.'] + padded(us as nat, 6)));
    }
}

/// Text of a date and time, as `date_text` says.
pub fn date_string(y: u16, mo: u8, d: u8, h: u8, mi: u8, sec: u8, us: u32) -> (s: String)
    ensures
        s@ == date_text(y as nat, mo as nat, d as nat, h as nat, mi as nat, sec as nat, us as nat),
{
    let mut s = String::new();
    push_padded(&mut s, y as u64, 4);
    push_char(&mut s, '-');
    push_padded(&mut s, mo as u64, 2);
    push_char(&mut s, '-');
    push_padded(&mut s, d as u64, 2);
    let ghost date = s@;
    if !(h == 0 && mi == 0 && sec == 0 && us == 0) {
        push_char(&mut s, ' ');
        let ghost head = s@;
        push_padded(&mut s, h as u64, 2);
        push_char(&mut s, ':');
        push_padded(&mut s, mi as u64, 2);
        push_char(&mut s, ':');
        push_padded(&mut s, sec as u64, 2);
        let ghost time = padded(h as nat, 2) + seq![':'] + padded(mi as nat, 2) + seq![':'] + padded(sec as nat, 2);
        assert(s@ =~= head + time);
        if us != 0 {
            push_char(&mut s, '.');
            push_padded(&mut s, us as u64, 6);
        }
    }
    s
}

/// Text of a duration, as `duration_text` says.
pub fn duration_string(neg: bool, days: u32, h: u8, mi: u8, sec: u8, us: u32) -> (s: String)
    ensures
        s@ == duration_text(neg, days as nat, h as nat, mi as nat, sec as nat, us as nat),
{
    let mut s = String::new();
    if neg {
        push_char(&mut s, '-');
    }
    let total_hours: u64 = ((days as u64) * 24 + (h as u64)) % 0x1_0000_0000;
    push_padded(&mut s, total_hours, 2);
    push_char(&mut s, ':');
    push_padded(&mut s, mi as u64, 2);
    push_char(&mut s, ':');
    push_padded(&mut s, sec as u64, 2);
    if us != 0 {
        push_char(&mut s, '.');
        push_padded(&mut s, us as u64, 6);
    }
    s
}

/// The cell that a database value becomes.
pub open spec fn value_cell(value: SqlValue) -> Cell {
    match value {
        SqlValue::Null => Cell::Null,
        SqlValue::Bytes(b) => Cell::String(bytes_text(b@)),
        SqlValue::Int(n) => Cell::Number(signed_decimal(n as int)),
        SqlValue::UInt(n) => Cell::Number(decimal(n as nat)),
        SqlValue::Real(t) => match t {
            Some(t) => Cell::Number(t@),
            None => Cell::Null,
        },
        SqlValue::Date(y, mo, d, h, mi, s, us) =>
            Cell::String(date_text(y as nat, mo as nat, d as nat, h as nat, mi as nat, s as nat, us as nat)),
        SqlValue::Time(neg, days, h, mi, s, us) =>
            Cell::String(duration_text(neg, days as nat, h as nat, mi as nat, s as nat, us as nat)),
    }
}

/// The cell that a database value becomes, as `value_cell` says.
pub fn value_to_json(value: &SqlValue) -> (c: CellValue)
    ensures
        c@ == value_cell(*value),
{
    match value {
        SqlValue::Null => CellValue::Null,
        SqlValue::Bytes(b) => CellValue::String(bytes_to_string(b.as_slice())),
        SqlValue::Int(n) => CellValue::Number(i64_to_string(*n)),
        SqlValue::UInt(n) => CellValue::Number(decimal_string(*n)),
        SqlValue::Real(t) => match t {
            Some(t) => CellValue::Number(t.clone()),
            None => CellValue::Null,
        },
        SqlValue::Date(y, mo, d, h, mi, sec, us) => CellValue::String(date_string(*y, *mo, *d, *h, *mi, *sec, *us)),
        SqlValue::Time(neg, days, h, mi, sec, us) => CellValue::String(duration_string(*neg, *days, *h, *mi, *sec, *us)),
    }
}

/// The text of a cell as plain text: empty for null, the characters of a
/// string, the printed text of anything else.
pub open spec fn plain_text(c: Cell) -> Seq<char> {
    match c {
        Cell::Null => Seq::empty(),
        Cell::String(s) => s,
        _ => display_text(c),
    }
}

/// The plain text of a database value, as `plain_text` of its cell says.
pub fn value_to_plain_string(value: &SqlValue) -> (s: String)
    ensures
        s@ == plain_text(value_cell(*value)),
{
    match value_to_json(value) {
        CellValue::Null => String::new(),
        CellValue::String(s) => s,
        other => display_string(&other),
    }
}

} // verus!
