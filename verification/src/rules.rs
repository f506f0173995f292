//! Which tables an export covers, and in which mode.

use vstd::prelude::*;
use crate::text::{trimmed, trim_str, lemma_trimmed_idempotent};
use crate::types::{ExportFormat, ExportMode};

verus! {

/// A table named for export, with its mode, as the user gave it.
#[derive(Debug)]
pub struct ExportTableRule {
    pub table: String,
    pub mode: ExportMode,
}

/// What the user asked to export. `table_rules` is the current form;
/// `tables` and `table` are the older forms, whose tables are sampled.
#[derive(Debug)]
pub struct ExportOptions {
    pub database: String,
    pub table: Option<String>,
    pub tables: Option<Vec<String>>,
    pub table_rules: Option<Vec<ExportTableRule>>,
    pub format: ExportFormat,
    pub sample_limit: u32,
    pub file_path: String,
}

/// A table to export, its name trimmed, with its mode.
#[derive(Debug, PartialEq, Eq)]
pub struct NormalizedExportTableRule {
    pub table: String,
    pub mode: ExportMode,
}

impl View for NormalizedExportTableRule {
    type V = (Seq<char>, ExportMode);

    open spec fn view(&self) -> (Seq<char>, ExportMode) {
        (self.table@, self.mode)
    }
}

impl DeepView for NormalizedExportTableRule {
    type V = (Seq<char>, ExportMode);

    open spec fn deep_view(&self) -> (Seq<char>, ExportMode) {
        self@
    }
}

impl View for ExportTableRule {
    type V = (Seq<char>, ExportMode);

    open spec fn view(&self) -> (Seq<char>, ExportMode) {
        (self.table@, self.mode)
    }
}

impl DeepView for ExportTableRule {
    type V = (Seq<char>, ExportMode);

    open spec fn deep_view(&self) -> (Seq<char>, ExportMode) {
        self@
    }
}

/// Whether a table name, once trimmed, names a table: it is not empty and
/// not one of the placeholders `undefined` and `null`.
pub open spec fn names_table(table: Seq<char>) -> bool {
    let t = trimmed(table);
    t.len() > 0 && t != "undefined"@ && t != "null"@
}

/// Whether some rule already covers the table `t`.
pub open spec fn has_table(rules: Seq<(Seq<char>, ExportMode)>, t: Seq<char>) -> bool {
    exists|i: int| 0 <= i < rules.len() && #[trigger] rules[i].0 == t
}

/// `rules` after the request to export `table` in `mode`: the trimmed name is
/// added at the end unless it names no table or is already covered.
pub open spec fn with_rule(rules: Seq<(Seq<char>, ExportMode)>, table: Seq<char>, mode: ExportMode) -> Seq<(Seq<char>, ExportMode)> {
    if !names_table(table) || has_table(rules, trimmed(table)) {
        rules
    } else {
        rules.push((trimmed(table), mode))
    }
}

/// `rules` after each request of `requests`, in order.
pub open spec fn with_rules(rules: Seq<(Seq<char>, ExportMode)>, requests: Seq<(Seq<char>, ExportMode)>) -> Seq<(Seq<char>, ExportMode)>
    decreases requests.len(),
{
    if requests.len() == 0 {
        rules
    } else {
        let before = with_rules(rules, requests.drop_last());
        with_rule(before, requests.last().0, requests.last().1)
    }
}

/// Each name of `tables` requested in sample mode.
pub open spec fn sampled(tables: Seq<Seq<char>>) -> Seq<(Seq<char>, ExportMode)> {
    Seq::new(tables.len(), |i: int| (tables[i], ExportMode::Sample))
}

/// The rules that the options ask for: those of `table_rules` when they give
/// any, else those of `tables` when it is given, else that of `table`.
pub open spec fn normalized_rules(options: ExportOptions) -> Seq<(Seq<char>, ExportMode)> {
    let from_rules = match options.table_rules {
        Some(rules) => with_rules(Seq::empty(), rules.deep_view()),
        None => Seq::empty(),
    };
    if from_rules.len() > 0 {
        from_rules
    } else {
        match options.tables {
            Some(tables) => with_rules(Seq::empty(), sampled(tables.deep_view())),
            None => match options.table {
                Some(t) => with_rule(Seq::empty(), t@, ExportMode::Sample),
                None => Seq::empty(),
            },
        }
    }
}

/// The message of a request that names no table.
pub open spec fn no_table_message() -> Seq<char> {
    "\u{8bf7}\u{9009}\u{62e9}\u{8981}\u{5bfc}\u{51fa}\u{7684}\u{8868}"@
}

/// Whether every rule names a table (trimmed, not empty, not a placeholder)
/// and no two rules name the same table.
pub open spec fn rules_well_formed(rules: Seq<(Seq<char>, ExportMode)>) -> bool {
    &&& forall|i: int| 0 <= i < rules.len() ==> {
        let t = #[trigger] rules[i].0;
        trimmed(t) == t && t.len() > 0 && t != "undefined"@ && t != "null"@
    }
    &&& forall|i: int, j: int| 0 <= i < j < rules.len() ==> #[trigger] rules[i].0 != #[trigger] rules[j].0
}

/// One more request keeps the rules well formed: the names stay trimmed,
/// name tables, and stay pairwise distinct.
pub proof fn lemma_push_rule_keeps_rules_well_formed(rules: Seq<(Seq<char>, ExportMode)>, table: Seq<char>, mode: ExportMode)
    requires
        rules_well_formed(rules),
    ensures
        rules_well_formed(with_rule(rules, table, mode)),
{
    if names_table(table) && !has_table(rules, trimmed(table)) {
        lemma_trimmed_idempotent(table);
        let after = rules.push((trimmed(table), mode));
        assert forall|i: int| 0 <= i < after.len() implies {
            let t = #[trigger] after[i].0;
            trimmed(t) == t && t.len() > 0 && t != "undefined"@ && t != "null"@
        } by {
            if i < rules.len() {
                assert(after[i] == rules[i]);
            }
        }
        assert forall|i: int, j: int| 0 <= i < j < after.len() implies #[trigger] after[i].0 != #[trigger] after[j].0 by {
            if j == rules.len() {
                assert(rules[i].0 != trimmed(table));
            } else {
                assert(after[i] == rules[i] && after[j] == rules[j]);
            }
        }
    }
}

/// A request only ever adds: the earlier rules stay as they were, in
/// order, and afterwards the trimmed name of a request that names a table is
/// covered; a new rule, when there is one, is that name in the requested
/// mode.
pub proof fn lemma_push_rule_covers_table(rules: Seq<(Seq<char>, ExportMode)>, table: Seq<char>, mode: ExportMode)
    ensures
        with_rule(rules, table, mode).subrange(0, rules.len() as int) == rules,
        with_rule(rules, table, mode).len() <= rules.len() + 1,
        names_table(table) ==> has_table(with_rule(rules, table, mode), trimmed(table)),
        with_rule(rules, table, mode).len() == rules.len() + 1 ==> with_rule(rules, table, mode).last() == (trimmed(table), mode),
        has_table(rules, trimmed(table)) || !names_table(table) ==> with_rule(rules, table, mode) == rules,
{
    let after = with_rule(rules, table, mode);
    if names_table(table) && !has_table(rules, trimmed(table)) {
        assert(after[rules.len() as int].0 == trimmed(table));
        assert(after.subrange(0, rules.len() as int) =~= rules);
    } else {
        assert(after.subrange(0, rules.len() as int) =~= rules);
    }
}

/// Any run of requests keeps the rules well formed.
pub proof fn lemma_with_rules_well_formed(rules: Seq<(Seq<char>, ExportMode)>, requests: Seq<(Seq<char>, ExportMode)>)
    requires
        rules_well_formed(rules),
    ensures
        rules_well_formed(with_rules(rules, requests)),
    decreases requests.len(),
{
    if requests.len() > 0 {
        lemma_with_rules_well_formed(rules, requests.drop_last());
        let before = with_rules(rules, requests.drop_last());
        lemma_push_rule_keeps_rules_well_formed(before, requests.last().0, requests.last().1);
    }
}

/// The normalized rules name tables by trimmed names, each at most once, whatever the
/// options; an export of options that name a table covers it once.
pub proof fn lemma_normalized_rules_well_formed(options: ExportOptions)
    ensures
        rules_well_formed(normalized_rules(options)),
{
    let empty: Seq<(Seq<char>, ExportMode)> = Seq::empty();
    match options.table_rules {
        Some(rules) => lemma_with_rules_well_formed(empty, rules.deep_view()),
        None => {},
    }
    match options.tables {
        Some(tables) => lemma_with_rules_well_formed(empty, sampled(tables.deep_view())),
        None => {},
    }
    match options.table {
        Some(t) => lemma_with_rules_well_formed(empty, seq![(t@, ExportMode::Sample)]),
        None => {},
    }
    match options.table {
        Some(t) => {
            let one = seq![(t@, ExportMode::Sample)];
            assert(one.drop_last() == empty);
            assert(with_rules(empty, one.drop_last()) == empty);
            assert(one.last() == (t@, ExportMode::Sample));
            assert(with_rules(empty, one) == with_rule(empty, t@, ExportMode::Sample));
        }
        None => {},
    }
}

/// Adds the rule for `table` in `mode` to `rules`, as `with_rule` says;
/// well-formed rules stay well formed.
pub fn push_export_rule(rules: &mut Vec<NormalizedExportTableRule>, table: &str, mode: ExportMode)
    ensures
        final(rules).deep_view() == with_rule(old(rules).deep_view(), table@, mode),
        rules_well_formed(old(rules).deep_view()) ==> rules_well_formed(final(rules).deep_view()),
{
    proof {
        if rules_well_formed(rules.deep_view()) {
            lemma_push_rule_keeps_rules_well_formed(rules.deep_view(), table@, mode);
        }
    }
    let t = trim_str(table);
    let undefined = String::from_str("undefined");
    let null = String::from_str("null");
    if t.as_str().is_empty() || t == undefined || t == null {
        return;
    }
    let mut i: usize = 0;
    while i < rules.len()
        invariant
            i <= rules@.len(),
            t@ == trimmed(table@),
            forall|k: int| 0 <= k < i ==> rules.deep_view()[k].0 != t@,
        decreases rules.len() - i,
    {
        if rules[i].table == t {
            assert(rules.deep_view()[i as int].0 == t@);
            return;
        }
        i = i + 1;
    }
    let ghost before = rules.deep_view();
    rules.push(NormalizedExportTableRule { table: t, mode });
    assert(rules.deep_view() =~= before.push((trimmed(table@), mode)));
}

/// The tables to export and their modes, as `normalized_rules` says, or the
/// message `no_table_message` when the options name none.
pub fn normalize_export_table_rules(options: &ExportOptions) -> (r: Result<Vec<NormalizedExportTableRule>, String>)
    ensures
        match r {
            Ok(rules) => normalized_rules(*options).len() > 0 && rules.deep_view() == normalized_rules(*options),
            Err(m) => normalized_rules(*options).len() == 0 && m@ == no_table_message(),
        },
{
    let mut rules: Vec<NormalizedExportTableRule> = Vec::new();
    if let Some(table_rules) = &options.table_rules {
        let mut i: usize = 0;
        while i < table_rules.len()
            invariant
                i <= table_rules@.len(),
                rules.deep_view() == with_rules(Seq::empty(), table_rules.deep_view().take(i as int)),
            decreases table_rules.len() - i,
        {
            push_export_rule(&mut rules, table_rules[i].table.as_str(), table_rules[i].mode);
            assert(table_rules.deep_view().take(i + 1).drop_last() == table_rules.deep_view().take(i as int));
            i = i + 1;
        }
        assert(table_rules.deep_view().take(i as int) == table_rules.deep_view());
    }
    let ghost from_rules = match &options.table_rules {
        Some(rules) => with_rules(Seq::empty(), rules.deep_view()),
        None => Seq::empty(),
    };
    assert(rules.deep_view() == from_rules);
    if rules.len() == 0 {
        if let Some(tables) = &options.tables {
            let ghost requests = sampled(tables.deep_view());
            let mut i: usize = 0;
            while i < tables.len()
                invariant
                    i <= tables@.len(),
                    requests == sampled(tables.deep_view()),
                    rules.deep_view() == with_rules(Seq::empty(), requests.take(i as int)),
                decreases tables.len() - i,
            {
                push_export_rule(&mut rules, tables[i].as_str(), ExportMode::Sample);
                assert(requests.take(i + 1).drop_last() == requests.take(i as int));
                i = i + 1;
            }
            assert(requests.take(i as int) == requests);
        } else if let Some(table) = &options.table {
            push_export_rule(&mut rules, table.as_str(), ExportMode::Sample);
        }
        assert(rules.deep_view() == normalized_rules(*options));
    }
    assert(rules.deep_view() == normalized_rules(*options));
    if rules.len() == 0 {
        Err(String::from_str("\u{8bf7}\u{9009}\u{62e9}\u{8981}\u{5bfc}\u{51fa}\u{7684}\u{8868}"))
    } else {
        Ok(rules)
    }
}

} // verus!
