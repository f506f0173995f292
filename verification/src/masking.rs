//! Masking of phone numbers and passwords in sampled rows.

use vstd::prelude::*;
use crate::text::{
    trimmed, lowercase, alphanumeric, has_infix, has_suffix, is_ascii_alphanumeric, is_ascii_digit,
    flat_map_chars, lemma_flat_map_step, chars_of, trim_str, to_lowercase, char_is_alphanumeric,
    contains_chars, ends_with_chars, occurs_at_exec, occurs_at, push_char, string_of,
};
use crate::value::{Cell, CellValue, display_text, display_string};
use crate::types::SampleData;

verus! {

/// What a column holds that must not be exported as it is.
#[derive(Debug, Clone, Copy, PartialEq, Eq, Structural)]
pub enum SensitiveColumnKind {
    Phone,
    Password,
}

/// Whether `s[i..j]` is a maximal run of ASCII letters and digits.
pub open spec fn is_token_at(s: Seq<char>, i: int, j: int) -> bool {
    &&& 0 <= i < j <= s.len()
    &&& i == 0 || !is_ascii_alphanumeric(s[i - 1])
    &&& j == s.len() || !is_ascii_alphanumeric(s[j])
    &&& forall|k: int| i <= k < j ==> is_ascii_alphanumeric(#[trigger] s[k])
}

/// Whether `t` is one of `tokens`.
pub open spec fn listed(tokens: Seq<&str>, t: Seq<char>) -> bool {
    exists|k: int| 0 <= k < tokens.len() && #[trigger] tokens[k]@ == t
}

/// Whether one of the runs of ASCII letters and digits of `s` is one of
/// `tokens`.
pub open spec fn has_token(s: Seq<char>, tokens: Seq<&str>) -> bool {
    exists|i: int, j: int| is_token_at(s, i, j) && listed(tokens, s.subrange(i, j))
}

/// Whether `s[from..to]` is one of `tokens`.
fn listed_run(s: &[char], from: usize, to: usize, tokens: &[&str]) -> (b: bool)
    requires
        from <= to <= s@.len(),
    ensures
        b == listed(tokens@, s@.subrange(from as int, to as int)),
{
    let mut k: usize = 0;
    while k < tokens.len()
        invariant
            from <= to <= s@.len(),
            k <= tokens@.len(),
            forall|m: int| 0 <= m < k ==> tokens@[m]@ != s@.subrange(from as int, to as int),
        decreases tokens.len() - k,
    {
        let t = chars_of(tokens[k]);
        if t.len() == to - from && occurs_at_exec(s, t.as_slice(), from) {
            assert(tokens@[k as int]@ == s@.subrange(from as int, to as int));
            return true;
        }
        assert(tokens@[k as int]@ != s@.subrange(from as int, to as int)) by {
            if tokens@[k as int]@ == s@.subrange(from as int, to as int) {
                assert(occurs_at(s@, t@, from as int));
            }
        }
        k = k + 1;
    }
    false
}

fn ascii_alphanumeric(c: char) -> (b: bool)
    ensures
        b == is_ascii_alphanumeric(c),
{
    ('0' <= c && c <= '9') || ('a' <= c && c <= 'z') || ('A' <= c && c <= 'Z')
}

/// Whether one of the runs of ASCII letters and digits of `value` is one of
/// `tokens`, as `has_token` says.
pub fn has_ascii_token(value: &str, tokens: &[&str]) -> (b: bool)
    ensures
        b == has_token(value@, tokens@),
{
    let s = chars_of(value);
    let n = s.len();
    let mut start: usize = 0;
    let mut in_run = false;
    let mut i: usize = 0;
    while i < n
        invariant
            n == s@.len(),
            s@ == value@,
            i <= n,
            in_run <==> (i > 0 && is_ascii_alphanumeric(s@[i - 1])),
            in_run ==> start < i,
            in_run ==> (start == 0 || !is_ascii_alphanumeric(s@[start - 1])),
            in_run ==> forall|k: int| start <= k < i ==> is_ascii_alphanumeric(#[trigger] s@[k]),
            forall|a: int, b: int| #![trigger is_token_at(s@, a, b)]
                is_token_at(s@, a, b) && b < i ==> !listed(tokens@, s@.subrange(a, b)),
        decreases n - i,
    {
        if ascii_alphanumeric(s[i]) {
            if !in_run {
                start = i;
                in_run = true;
            }
        } else {
            if in_run {
                assert(is_token_at(s@, start as int, i as int));
                if listed_run(s.as_slice(), start, i, tokens) {
                    return true;
                }
                in_run = false;
            }
        }
        proof {
            assert forall|a: int, b: int| #![trigger is_token_at(s@, a, b)]
                is_token_at(s@, a, b) && b < i + 1 implies !listed(tokens@, s@.subrange(a, b)) by {
                if b == i {
                    assert(!is_ascii_alphanumeric(s@[i as int]));
                    if a < start {
                        assert(is_ascii_alphanumeric(s@[start - 1]));
                    } else if a > start {
                        assert(is_ascii_alphanumeric(s@[a - 1]));
                    }
                }
            }
        }
        i = i + 1;
    }
    if in_run {
        assert(is_token_at(s@, start as int, n as int));
        if listed_run(s.as_slice(), start, n, tokens) {
            return true;
        }
    }
    assert forall|a: int, b: int| is_token_at(s@, a, b) implies !listed(tokens@, s@.subrange(a, b)) by {
        if b == n {
            assert(is_ascii_alphanumeric(s@[n - 1]));
            if a < start {
                assert(is_ascii_alphanumeric(s@[start - 1]));
            } else if a > start {
                assert(is_ascii_alphanumeric(s@[a - 1]));
            }
        }
    }
    false
}


/// The character kept when it is a letter or digit in Unicode's sense.
pub open spec fn alphanumeric_only() -> spec_fn(char) -> Seq<char> {
    |c: char| if alphanumeric(c) { seq![c] } else { Seq::empty() }
}

/// What a column name says the column holds, given the name trimmed and
/// lowercased (`lower`) and that form with only its letters and digits
/// (`compact`). A password column names 密码 or 口令, has `password` or
/// `passwd` in its compact form or ends with `pwd` there, or has `pwd` or
/// `pass` as a word. Otherwise a phone column names 手机号, 手机, 电话 or
/// 联系方式, has `phone`, `mobile` or `telephone` in its compact form, or has
/// `tel` or `cell` as a word.
pub open spec fn kind_of_forms(lower: Seq<char>, compact: Seq<char>) -> Option<SensitiveColumnKind> {
    if has_infix(lower, "\u{5bc6}\u{7801}"@) || has_infix(lower, "\u{53e3}\u{4ee4}"@)
        || has_infix(compact, "password"@) || has_infix(compact, "passwd"@)
        || has_suffix(compact, "pwd"@) || has_token(lower, seq!["pwd", "pass"]) {
        Some(SensitiveColumnKind::Password)
    } else if has_infix(lower, "\u{624b}\u{673a}\u{53f7}"@) || has_infix(lower, "\u{624b}\u{673a}"@)
        || has_infix(lower, "\u{7535}\u{8bdd}"@) || has_infix(lower, "\u{8054}\u{7cfb}\u{65b9}\u{5f0f}"@)
        || has_infix(compact, "phone"@) || has_infix(compact, "mobile"@)
        || has_infix(compact, "telephone"@) || has_token(lower, seq!["tel", "cell"]) {
        Some(SensitiveColumnKind::Phone)
    } else {
        None
    }
}

/// Whether the name of a column says it holds a password or a phone number:
/// `kind_of_forms` of the name trimmed and lowercased, and of that form
/// with only its letters and digits kept.
pub open spec fn column_kind(column: Seq<char>) -> Option<SensitiveColumnKind> {
    let lower = lowercase(trimmed(column));
    kind_of_forms(lower, flat_map_chars(lower, alphanumeric_only()))
}

fn contains_literal(s: &[char], pat: &str) -> (b: bool)
    ensures
        b == has_infix(s@, pat@),
{
    let p = chars_of(pat);
    contains_chars(s, p.as_slice())
}

/// What a column holds, from its name trimmed and lowercased and from that
/// form with only its letters and digits, as `kind_of_forms` says.
pub fn column_kind_of_forms(lower: &str, compact: &str) -> (k: Option<SensitiveColumnKind>)
    ensures
        k == kind_of_forms(lower@, compact@),
{
    let lower_chars = chars_of(lower);
    let compact_chars = chars_of(compact);
    let pwd: Vec<char> = chars_of("pwd");
    let password_tokens: [&str; 2] = ["pwd", "pass"];
    let phone_tokens: [&str; 2] = ["tel", "cell"];
    assert(password_tokens@ == seq!["pwd", "pass"]);
    assert(phone_tokens@ == seq!["tel", "cell"]);
    if contains_literal(lower_chars.as_slice(), "\u{5bc6}\u{7801}") || contains_literal(lower_chars.as_slice(), "\u{53e3}\u{4ee4}")
        || contains_literal(compact_chars.as_slice(), "password") || contains_literal(compact_chars.as_slice(), "passwd")
        || ends_with_chars(compact_chars.as_slice(), pwd.as_slice())
        || has_ascii_token(lower, &password_tokens) {
        return Some(SensitiveColumnKind::Password);
    }
    if contains_literal(lower_chars.as_slice(), "\u{624b}\u{673a}\u{53f7}") || contains_literal(lower_chars.as_slice(), "\u{624b}\u{673a}")
        || contains_literal(lower_chars.as_slice(), "\u{7535}\u{8bdd}") || contains_literal(lower_chars.as_slice(), "\u{8054}\u{7cfb}\u{65b9}\u{5f0f}")
        || contains_literal(compact_chars.as_slice(), "phone") || contains_literal(compact_chars.as_slice(), "mobile")
        || contains_literal(compact_chars.as_slice(), "telephone")
        || has_ascii_token(lower, &phone_tokens) {
        return Some(SensitiveColumnKind::Phone);
    }
    None
}

/// What the name of a column says it holds, as `column_kind` says.
pub fn sensitive_column_kind(column: &str) -> (k: Option<SensitiveColumnKind>)
    ensures
        k == column_kind(column@),
{
    let trimmed_name = trim_str(column);
    let lower_string = to_lowercase(trimmed_name.as_str());
    let lower = chars_of(lower_string.as_str());
    let ghost f = alphanumeric_only();
    let mut compact: Vec<char> = Vec::new();
    let mut i: usize = 0;
    while i < lower.len()
        invariant
            i <= lower@.len(),
            f == alphanumeric_only(),
            compact@ == flat_map_chars(lower@.take(i as int), f),
        decreases lower.len() - i,
    {
        let c = lower[i];
        proof {
            lemma_flat_map_step(lower@, f, i as int);
        }
        if char_is_alphanumeric(c) {
            compact.push(c);
        }
        assert(compact@ =~= flat_map_chars(lower@.take(i + 1), f));
        i = i + 1;
    }
    assert(lower@.take(i as int) == lower@);
    let compact_string = string_of(compact.as_slice(), 0, compact.len());
    assert(compact@.subrange(0, compact@.len() as int) == compact@);
    column_kind_of_forms(lower_string.as_str(), compact_string.as_str())
}


/// The number of ASCII digits in `s`.
pub open spec fn digit_count(s: Seq<char>) -> nat
    decreases s.len(),
{
    if s.len() == 0 {
        0
    } else {
        digit_count(s.drop_last()) + if is_ascii_digit(s.last()) { 1nat } else { 0nat }
    }
}

/// How many leading and trailing digits of a phone number stay visible:
/// all but eight in front and four at the end from eleven digits on, two
/// and two from five digits on, none below.
pub open spec fn visible_digits(count: nat) -> (nat, nat) {
    if count >= 11 {
        ((count - 8) as nat, 4nat)
    } else if count >= 5 {
        (2nat, 2nat)
    } else {
        (0nat, 0nat)
    }
}

/// The character at `i` of a masked phone number: a digit that is neither
/// among the visible leading digits nor among the visible trailing ones
/// becomes `*`; every other character stays.
pub open spec fn masked_phone_char(s: Seq<char>, i: int) -> char {
    let count = digit_count(s);
    let index = digit_count(s.take(i));
    let (prefix, suffix) = visible_digits(count);
    if is_ascii_digit(s[i]) && !(index < prefix || index >= count - suffix) { '*' } else { s[i] }
}

/// A phone number with its middle digits masked; `****` for text without
/// digits.
pub open spec fn masked_phone(s: Seq<char>) -> Seq<char> {
    if digit_count(s) == 0 {
        "****"@
    } else {
        Seq::new(s.len(), |i: int| masked_phone_char(s, i))
    }
}

proof fn lemma_digit_count_step(s: Seq<char>, i: int)
    requires
        0 <= i < s.len(),
    ensures
        digit_count(s.take(i + 1)) == digit_count(s.take(i)) + if is_ascii_digit(s[i]) { 1nat } else { 0nat },
{
    assert(s.take(i + 1).drop_last() == s.take(i));
}

proof fn lemma_digit_count_bound(s: Seq<char>)
    ensures
        digit_count(s) <= s.len(),
    decreases s.len(),
{
    if s.len() > 0 {
        lemma_digit_count_bound(s.drop_last());
    }
}

fn ascii_digit(c: char) -> (b: bool)
    ensures
        b == is_ascii_digit(c),
{
    '0' <= c && c <= '9'
}

/// `value` with the middle digits masked, as `masked_phone` says.
pub fn mask_phone_text(value: &str) -> (r: String)
    ensures
        r@ == masked_phone(value@),
{
    let s = chars_of(value);
    let n = s.len();
    let mut count: usize = 0;
    let mut i: usize = 0;
    while i < n
        invariant
            n == s@.len(),
            i <= n,
            count == digit_count(s@.take(i as int)),
        decreases n - i,
    {
        proof {
            lemma_digit_count_step(s@, i as int);
            lemma_digit_count_bound(s@.take(i as int));
        }
        if ascii_digit(s[i]) {
            count = count + 1;
        }
        i = i + 1;
    }
    assert(s@.take(n as int) == s@);
    if count == 0 {
        return String::from_str("****");
    }
    let (prefix, suffix): (usize, usize) = if count >= 11 {
        (count - 8, 4)
    } else if count >= 5 {
        (2, 2)
    } else {
        (0, 0)
    };
    let mut r = String::new();
    let mut index: usize = 0;
    let mut i: usize = 0;
    while i < n
        invariant
            n == s@.len(),
            s@ == value@,
            i <= n,
            count == digit_count(s@),
            count > 0,
            (prefix as nat, suffix as nat) == visible_digits(count as nat),
            index == digit_count(s@.take(i as int)),
            r@ == Seq::new(i as nat, |k: int| masked_phone_char(s@, k)),
        decreases n - i,
    {
        proof {
            lemma_digit_count_step(s@, i as int);
            lemma_digit_count_bound(s@.take(i as int));
            assert(digit_count(s@.take(i + 1)) <= digit_count(s@)) by {
                lemma_digit_count_prefix(s@, i + 1);
            }
        }
        let c = s[i];
        let ghost before = r@;
        if !ascii_digit(c) {
            push_char(&mut r, c);
        } else {
            let keep = index < prefix || index >= count - suffix;
            index = index + 1;
            if keep {
                push_char(&mut r, c);
            } else {
                push_char(&mut r, '*');
            }
        }
        assert(r@ =~= Seq::new((i + 1) as nat, |k: int| masked_phone_char(s@, k)));
        i = i + 1;
    }
    r
}

proof fn lemma_digit_count_prefix(s: Seq<char>, i: int)
    requires
        0 <= i <= s.len(),
    ensures
        digit_count(s.take(i)) <= digit_count(s),
    decreases s.len() - i,
{
    if i < s.len() {
        lemma_digit_count_prefix(s, i + 1);
        lemma_digit_count_step(s, i);
    } else {
        assert(s.take(i) == s);
    }
}


proof fn lemma_digit_at_index(s: Seq<char>, k: nat)
    requires
        k < digit_count(s),
    ensures
        exists|i: int| 0 <= i < s.len() && is_ascii_digit(s[i]) && #[trigger] digit_count(s.take(i)) == k,
    decreases s.len(),
{
    let rest = s.drop_last();
    if k < digit_count(rest) {
        lemma_digit_at_index(rest, k);
        let i = choose|i: int| 0 <= i < rest.len() && is_ascii_digit(rest[i]) && #[trigger] digit_count(rest.take(i)) == k;
        assert(s.take(i) == rest.take(i));
        assert(s[i] == rest[i]);
    } else {
        let i = s.len() - 1;
        assert(s.take(i) == rest);
        assert(is_ascii_digit(s[i]));
    }
}

/// Masking a phone number keeps its length and every character that is not
/// a digit; each digit stays or becomes `*`, and at least one digit always
/// becomes `*`.
pub proof fn lemma_masked_phone_shape(s: Seq<char>)
    requires
        digit_count(s) > 0,
    ensures
        masked_phone(s).len() == s.len(),
        forall|i: int| 0 <= i < s.len() && !is_ascii_digit(s[i]) ==> #[trigger] masked_phone(s)[i] == s[i],
        forall|i: int| 0 <= i < s.len() && is_ascii_digit(s[i]) ==> #[trigger] masked_phone(s)[i] == s[i] || masked_phone(s)[i] == '*',
        exists|i: int| 0 <= i < s.len() && is_ascii_digit(s[i]) && #[trigger] masked_phone(s)[i] == '*',
{
    let count = digit_count(s);
    let (prefix, suffix) = visible_digits(count);
    lemma_digit_at_index(s, prefix);
    let i = choose|i: int| 0 <= i < s.len() && is_ascii_digit(s[i]) && #[trigger] digit_count(s.take(i)) == prefix;
    assert(masked_phone(s)[i] == masked_phone_char(s, i));
}

proof fn lemma_all_digits_count(s: Seq<char>, i: int)
    requires
        0 <= i <= s.len(),
        forall|k: int| 0 <= k < s.len() ==> is_ascii_digit(#[trigger] s[k]),
    ensures
        digit_count(s.take(i)) == i,
    decreases i,
{
    if i > 0 {
        lemma_all_digits_count(s, i - 1);
        lemma_digit_count_step(s, i - 1);
    }
}

/// A number made of digits only keeps its first and last digits and has
/// the digits between replaced by `*`: from eleven digits on, all but the
/// last eight in front and four at the end stay (`13812345678` becomes
/// `138****5678`); from five to ten digits, two in front and two at the end;
/// below five, every digit is masked.
pub proof fn lemma_masked_phone_digits(s: Seq<char>)
    requires
        s.len() > 0,
        forall|k: int| 0 <= k < s.len() ==> is_ascii_digit(#[trigger] s[k]),
    ensures
        s.len() >= 11 ==> masked_phone(s) == s.take(s.len() - 8) + "****"@ + s.skip(s.len() - 4),
        5 <= s.len() < 11 ==> masked_phone(s) == s.take(2) + Seq::new((s.len() - 4) as nat, |k: int| '*') + s.skip(s.len() - 2),
        s.len() < 5 ==> masked_phone(s) == Seq::new(s.len(), |k: int| '*'),
{
    let n = s.len() as int;
    lemma_all_digits_count(s, n);
    assert(s.take(n) == s);
    assert forall|i: int| 0 <= i < n implies #[trigger] digit_count(s.take(i)) == i by {
        lemma_all_digits_count(s, i);
    }
    reveal_strlit("****");
    let m = masked_phone(s);
    if n >= 11 {
        let expected = s.take(n - 8) + "****"@ + s.skip(n - 4);
        assert forall|i: int| 0 <= i < n implies m[i] == expected[i] by {
            assert(m[i] == masked_phone_char(s, i));
            assert(digit_count(s.take(i)) == i);
        }
        assert(m =~= expected);
    } else if n >= 5 {
        let expected = s.take(2) + Seq::new((n - 4) as nat, |k: int| '*') + s.skip(n - 2);
        assert forall|i: int| 0 <= i < n implies m[i] == expected[i] by {
            assert(m[i] == masked_phone_char(s, i));
            assert(digit_count(s.take(i)) == i);
        }
        assert(m =~= expected);
    } else {
        let expected = Seq::new(n as nat, |k: int| '*');
        assert forall|i: int| 0 <= i < n implies m[i] == expected[i] by {
            assert(m[i] == masked_phone_char(s, i));
            assert(digit_count(s.take(i)) == i);
        }
        assert(m =~= expected);
    }
}

/// A password cell masked: null and the empty string stay, anything else
/// becomes the string `******`.
pub open spec fn masked_password_cell(c: Cell) -> Cell {
    match c {
        Cell::Null => Cell::Null,
        Cell::String(s) => if s.len() == 0 { Cell::String(s) } else { Cell::String("******"@) },
        _ => Cell::String("******"@),
    }
}

/// A phone cell masked: null and the empty string stay, a string has its
/// middle digits masked, anything else is printed and then masked.
pub open spec fn masked_phone_cell(c: Cell) -> Cell {
    match c {
        Cell::Null => Cell::Null,
        Cell::String(s) => if s.len() == 0 { Cell::String(s) } else { Cell::String(masked_phone(s)) },
        _ => Cell::String(masked_phone(display_text(c))),
    }
}

/// A password cell masked, as `masked_password_cell` says.
pub fn mask_password_value(value: CellValue) -> (r: CellValue)
    ensures
        r@ == masked_password_cell(value@),
{
    match value {
        CellValue::Null => CellValue::Null,
        CellValue::String(s) => {
            if s.as_str().is_empty() {
                CellValue::String(s)
            } else {
                CellValue::String(String::from_str("******"))
            }
        }
        _ => CellValue::String(String::from_str("******")),
    }
}

/// A phone cell masked, as `masked_phone_cell` says.
pub fn mask_phone_value(value: CellValue) -> (r: CellValue)
    ensures
        r@ == masked_phone_cell(value@),
{
    match value {
        CellValue::Null => CellValue::Null,
        CellValue::String(s) => {
            if s.as_str().is_empty() {
                CellValue::String(s)
            } else {
                CellValue::String(mask_phone_text(s.as_str()))
            }
        }
        other => {
            let text = display_string(&other);
            CellValue::String(mask_phone_text(text.as_str()))
        }
    }
}

/// A cell of a column of the given kind, masked as that kind requires.
pub open spec fn masked_cell(kind: Option<SensitiveColumnKind>, c: Cell) -> Cell {
    match kind {
        Some(SensitiveColumnKind::Phone) => masked_phone_cell(c),
        Some(SensitiveColumnKind::Password) => masked_password_cell(c),
        None => c,
    }
}

/// The kind of the column at `index`, none past the last column.
pub open spec fn kind_at(columns: Seq<Seq<char>>, index: int) -> Option<SensitiveColumnKind> {
    if 0 <= index < columns.len() { column_kind(columns[index]) } else { None }
}

/// The rows with each cell masked as the kind of its column requires.
pub open spec fn masked_rows(columns: Seq<Seq<char>>, rows: Seq<Seq<Cell>>) -> Seq<Seq<Cell>> {
    Seq::new(rows.len(), |r: int| Seq::new(rows[r].len(), |j: int| masked_cell(kind_at(columns, j), rows[r][j])))
}

/// Masking depends on the column alone, never on the row. Every row keeps
/// its length and is masked as if it were the only row; in a column whose
/// name marks no phone or password (or past the last column) each cell stays
/// as it is; in a password column every non-empty string becomes `******`;
/// in a phone column every non-empty string has its digits masked as
/// `masked_phone` says; null stays null in either.
pub proof fn lemma_masking_by_column(columns: Seq<Seq<char>>, rows: Seq<Seq<Cell>>)
    ensures
        masked_rows(columns, rows).len() == rows.len(),
        forall|r: int| 0 <= r < rows.len() ==> (#[trigger] masked_rows(columns, rows)[r]).len() == rows[r].len(),
        forall|r: int| 0 <= r < rows.len() ==> #[trigger] masked_rows(columns, rows)[r] == masked_rows(columns, seq![rows[r]])[0],
        forall|r: int, j: int| 0 <= r < rows.len() && 0 <= j < rows[r].len()
            && !(0 <= j < columns.len() && column_kind(columns[j]) is Some)
            ==> #[trigger] masked_rows(columns, rows)[r][j] == rows[r][j],
        forall|r: int, j: int| 0 <= r < rows.len() && 0 <= j < rows[r].len() && j < columns.len()
            && column_kind(columns[j]) == Some(SensitiveColumnKind::Password)
            ==> (rows[r][j] matches Cell::String(s) ==> (s.len() > 0 ==> #[trigger] masked_rows(columns, rows)[r][j] == Cell::String("******"@))),
        forall|r: int, j: int| 0 <= r < rows.len() && 0 <= j < rows[r].len() && j < columns.len()
            && column_kind(columns[j]) == Some(SensitiveColumnKind::Phone)
            ==> (rows[r][j] matches Cell::String(s) ==> (s.len() > 0 ==> #[trigger] masked_rows(columns, rows)[r][j] == Cell::String(masked_phone(s)))),
        forall|r: int, j: int| 0 <= r < rows.len() && 0 <= j < rows[r].len() && rows[r][j] == Cell::Null
            ==> #[trigger] masked_rows(columns, rows)[r][j] == Cell::Null,
{
    assert forall|r: int| 0 <= r < rows.len() implies #[trigger] masked_rows(columns, rows)[r] == masked_rows(columns, seq![rows[r]])[0] by {
        let one = seq![rows[r]];
        assert(one[0] == rows[r]);
        assert(masked_rows(columns, rows)[r] =~= masked_rows(columns, one)[0]);
    }
}

/// The sample with the cells of phone and password columns masked: the
/// columns stay, each row keeps its length, and each cell becomes what
/// `masked_cell` gives for the kind of its column.
pub fn mask_sensitive_sample_data(sample: SampleData) -> (r: SampleData)
    ensures
        r.columns.deep_view() == sample.columns.deep_view(),
        r.rows.deep_view() == masked_rows(sample.columns.deep_view(), sample.rows.deep_view()),
{
    let ghost columns = sample.columns.deep_view();
    let mut kinds: Vec<Option<SensitiveColumnKind>> = Vec::new();
    let mut c: usize = 0;
    while c < sample.columns.len()
        invariant
            c <= sample.columns@.len(),
            columns == sample.columns.deep_view(),
            kinds@.len() == c,
            forall|j: int| 0 <= j < c ==> #[trigger] kinds@[j] == kind_at(columns, j),
        decreases sample.columns.len() - c,
    {
        kinds.push(sensitive_column_kind(sample.columns[c].as_str()));
        c = c + 1;
    }
    let ghost rows_in = sample.rows.deep_view();
    let mut rows: Vec<Vec<CellValue>> = Vec::new();
    let mut r: usize = 0;
    while r < sample.rows.len()
        invariant
            r <= sample.rows@.len(),
            columns == sample.columns.deep_view(),
            rows_in == sample.rows.deep_view(),
            kinds@.len() == columns.len(),
            forall|j: int| 0 <= j < kinds@.len() ==> #[trigger] kinds@[j] == kind_at(columns, j),
            rows.deep_view() == masked_rows(columns, rows_in).take(r as int),
        decreases sample.rows.len() - r,
    {
        let source = &sample.rows[r];
        let mut row: Vec<CellValue> = Vec::new();
        let mut j: usize = 0;
        while j < source.len()
            invariant
                j <= source@.len(),
                source.deep_view() == rows_in[r as int],
                r < rows_in.len(),
                kinds@.len() == columns.len(),
                forall|k: int| 0 <= k < kinds@.len() ==> #[trigger] kinds@[k] == kind_at(columns, k),
                row.deep_view() == masked_rows(columns, rows_in)[r as int].take(j as int),
            decreases source.len() - j,
        {
            let value = source[j].clone();
            let kind = if j < kinds.len() { kinds[j] } else { None };
            let masked = match kind {
                Some(SensitiveColumnKind::Phone) => mask_phone_value(value),
                Some(SensitiveColumnKind::Password) => mask_password_value(value),
                None => value,
            };
            let ghost before = row.deep_view();
            row.push(masked);
            assert(row.deep_view() =~= before.push(masked@));
            assert(row.deep_view() =~= masked_rows(columns, rows_in)[r as int].take(j + 1));
            j = j + 1;
        }
        assert(row.deep_view() =~= masked_rows(columns, rows_in)[r as int]);
        let ghost before = rows.deep_view();
        let ghost pushed = row.deep_view();
        rows.push(row);
        assert(rows.deep_view() =~= before.push(pushed));
        assert(rows.deep_view() =~= masked_rows(columns, rows_in).take(r + 1));
        r = r + 1;
    }
    assert(rows.deep_view() =~= masked_rows(columns, rows_in));
    SampleData { columns: sample.columns, rows }
}

} // verus!
