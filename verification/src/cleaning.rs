//! Cleaning of the submitted input table: every row gets an absolute
//! proportion (its revenue share of the total revenue where the row states a
//! revenue proportion, zero elsewhere), only the revenue-proportion rows are
//! kept, their search terms are reported, and the result is cut down to the
//! key, the search term and the absolute proportion.
//!
//! The table's numbers are floating point and stay with the caller; the
//! library decides, from the text columns, which rule each row follows and
//! which rows are kept.
use vstd::prelude::*;

verus! {

/// The metric that marks a row as a revenue proportion.
pub const REVENUE_PROPORTION: &'static str = "revenue_proportion";

/// The columns of the cleaned table, in order.
pub const SELECTED_COLUMNS: [&'static str; 3] = ["pkey", "search_term", "absolute_proportion"];

/// What the cleaning reads of a row of the input table: its `metric` and its
/// `search_term`, each absent where the row holds null.
pub struct InputRow {
    pub metric: Option<String>,
    pub search_term: Option<String>,
}

/// How a row's absolute proportion is computed.
#[derive(PartialEq, Eq, Structural, Clone, Copy, Debug)]
pub enum ProportionRule {
    /// `total_revenue * value * 0.01`: the row's share of the total revenue.
    ScaledRevenue,
    /// The literal 0.
    Zero,
}

/// Whether a row's metric is the revenue proportion (a null metric is not).
pub open spec fn is_revenue_row(row: InputRow) -> bool {
    row.metric matches Some(m) && m@ == REVENUE_PROPORTION@
}

/// The rule of a row.
pub open spec fn rule_of(row: InputRow) -> ProportionRule {
    if is_revenue_row(row) {
        ProportionRule::ScaledRevenue
    } else {
        ProportionRule::Zero
    }
}

/// The positions, in order, of the revenue-proportion rows among the first
/// `n` rows.
pub open spec fn kept_positions(rows: Seq<InputRow>, n: int) -> Seq<usize>
    decreases n,
{
    if n <= 0 {
        seq![]
    } else if is_revenue_row(rows[n - 1]) {
        kept_positions(rows, n - 1).push((n - 1) as usize)
    } else {
        kept_positions(rows, n - 1)
    }
}

/// The plan of a cleaning: the rule of every input row, the positions of the
/// rows that are kept, and the search terms of the kept rows, in order.
pub struct CleanPlan {
    pub rules: Vec<ProportionRule>,
    pub kept: Vec<usize>,
    pub search_terms: Vec<Option<String>>,
}

/// The rule of a row whose metric is `metric`.
pub fn proportion_rule(metric: &Option<String>) -> (rule: ProportionRule)
    ensures
        rule == (if metric matches Some(m) && m@ == REVENUE_PROPORTION@ {
            ProportionRule::ScaledRevenue
        } else {
            ProportionRule::Zero
        }),
{
    match metric {
        Some(m) => {
            let target = String::from_str(REVENUE_PROPORTION);
            if *m == target {
                ProportionRule::ScaledRevenue
            } else {
                ProportionRule::Zero
            }
        },
        None => ProportionRule::Zero,
    }
}

/// Plans the cleaning of `rows`: the rule of each row, the rows whose metric
/// is the revenue proportion (in their order), and those rows' search terms.
pub fn clean_inputs(rows: &Vec<InputRow>) -> (plan: CleanPlan)
    ensures
        plan.rules@.len() == rows@.len(),
        forall|i: int| 0 <= i < rows@.len() ==> plan.rules@[i] == rule_of(#[trigger] rows@[i]),
        plan.kept@ == kept_positions(rows@, rows@.len() as int),
        plan.search_terms@.len() == plan.kept@.len(),
        forall|k: int|
            0 <= k < plan.kept@.len() ==> #[trigger] plan.search_terms@[k] == rows@[plan.kept@[k] as int].search_term,
{
    let mut rules: Vec<ProportionRule> = Vec::new();
    let mut kept: Vec<usize> = Vec::new();
    let mut search_terms: Vec<Option<String>> = Vec::new();
    let mut i: usize = 0;
    while i < rows.len()
        invariant
            i <= rows@.len(),
            rules@.len() == i,
            forall|j: int| 0 <= j < i ==> rules@[j] == rule_of(#[trigger] rows@[j]),
            kept@ == kept_positions(rows@, i as int),
            search_terms@.len() == kept@.len(),
            forall|k: int|
                0 <= k < kept@.len() ==> #[trigger] search_terms@[k] == rows@[kept@[k] as int].search_term,
        decreases rows@.len() - i,
    {
        let rule = proportion_rule(&rows[i].metric);
        rules.push(rule);
        if rule == ProportionRule::ScaledRevenue {
            kept.push(i);
            search_terms.push(rows[i].search_term.clone());
        }
        i += 1;
    }
    CleanPlan { rules, kept, search_terms }
}

} // verus!

verus! {

// ---------------------------------------------------------------------------
// Laws of the cleaning
// ---------------------------------------------------------------------------

/// The kept positions of the first `n` rows are the positions below `n` of
/// revenue-proportion rows, each once, in increasing order.
pub proof fn lemma_kept_positions(rows: Seq<InputRow>, n: int)
    requires
        0 <= n <= rows.len(),
        rows.len() <= usize::MAX,
    ensures
        forall|k: int|
            0 <= k < kept_positions(rows, n).len() ==> {
                &&& 0 <= #[trigger] kept_positions(rows, n)[k] < n
                &&& is_revenue_row(rows[kept_positions(rows, n)[k] as int])
            },
        forall|k1: int, k2: int|
            0 <= k1 < k2 < kept_positions(rows, n).len() ==> #[trigger] kept_positions(rows, n)[k1]
                < #[trigger] kept_positions(rows, n)[k2],
        forall|i: int|
            0 <= i < n && #[trigger] is_revenue_row(rows[i]) ==> kept_positions(rows, n).contains(
                i as usize,
            ),
    decreases n,
{
    if n > 0 {
        lemma_kept_positions(rows, n - 1);
        let prev = kept_positions(rows, n - 1);
        if is_revenue_row(rows[n - 1]) {
            assert(kept_positions(rows, n) == prev.push((n - 1) as usize));
            assert forall|i: int| 0 <= i < n && #[trigger] is_revenue_row(rows[i]) implies kept_positions(
                rows,
                n,
            ).contains(i as usize) by {
                if i == n - 1 {
                    assert(kept_positions(rows, n)[prev.len() as int] == i as usize);
                } else {
                    let k = choose|k: int| 0 <= k < prev.len() && prev[k] == i as usize;
                    assert(kept_positions(rows, n)[k] == i as usize);
                }
            }
        }
    }
}

/// Every kept row takes the scaled revenue as its absolute proportion: the
/// zero of the other rows never reaches the cleaned table.
pub proof fn lemma_kept_rows_are_scaled(rows: Seq<InputRow>)
    requires
        rows.len() <= usize::MAX,
    ensures
        forall|k: int|
            0 <= k < kept_positions(rows, rows.len() as int).len() ==> rule_of(
                rows[#[trigger] kept_positions(rows, rows.len() as int)[k] as int],
            ) == ProportionRule::ScaledRevenue,
{
    lemma_kept_positions(rows, rows.len() as int);
}

/// The positions `0, 1, ..., n - 1`.
pub open spec fn all_positions(n: int) -> Seq<usize> {
    Seq::new(n as nat, |i: int| i as usize)
}

/// The rows at the given positions, in order.
pub open spec fn rows_at(rows: Seq<InputRow>, positions: Seq<usize>) -> Seq<InputRow> {
    positions.map_values(|p: usize| rows[p as int])
}

/// Of rows that are all revenue-proportion rows, every one is kept.
proof fn lemma_all_kept(rows: Seq<InputRow>, n: int)
    requires
        0 <= n <= rows.len(),
        n <= usize::MAX + 1,
        forall|i: int| 0 <= i < rows.len() ==> #[trigger] is_revenue_row(rows[i]),
    ensures
        kept_positions(rows, n) =~= all_positions(n),
    decreases n,
{
    if n > 0 {
        lemma_all_kept(rows, n - 1);
        assert(is_revenue_row(rows[n - 1]));
    }
}

/// Cleaning is idempotent: cleaning the rows that a cleaning kept keeps all
/// of them, in the same order.
pub proof fn lemma_cleaning_idempotent(rows: Seq<InputRow>)
    requires
        rows.len() <= usize::MAX,
    ensures
        ({
            let kept = rows_at(rows, kept_positions(rows, rows.len() as int));
            kept_positions(kept, kept.len() as int) == all_positions(kept.len() as int)
        }),
{
    lemma_kept_positions(rows, rows.len() as int);
    let positions = kept_positions(rows, rows.len() as int);
    let kept = rows_at(rows, positions);
    assert forall|i: int| 0 <= i < kept.len() implies #[trigger] is_revenue_row(kept[i]) by {
        assert(kept[i] == rows[positions[i] as int]);
    }
    assert(kept.len() <= rows.len()) by {
        lemma_positions_fewer(rows, rows.len() as int);
    }
    lemma_all_kept(kept, kept.len() as int);
}

/// There are no more kept positions than rows.
proof fn lemma_positions_fewer(rows: Seq<InputRow>, n: int)
    requires
        0 <= n,
    ensures
        kept_positions(rows, n).len() <= n,
    decreases n,
{
    if n > 0 {
        lemma_positions_fewer(rows, n - 1);
    }
}

} // verus!

verus! {

/// Whether a row's metric is the revenue proportion, as a predicate.
pub open spec fn revenue_row_pred() -> spec_fn(InputRow) -> bool {
    |row: InputRow| is_revenue_row(row)
}

/// The rows that a cleaning keeps, in order.
pub open spec fn kept_rows(rows: Seq<InputRow>) -> Seq<InputRow> {
    rows_at(rows, kept_positions(rows, rows.len() as int))
}

/// The kept rows of the first `n` rows are those of them whose metric is
/// the revenue proportion, in order.
proof fn lemma_kept_prefix_is_filter(rows: Seq<InputRow>, n: int)
    requires
        0 <= n <= rows.len(),
        rows.len() <= usize::MAX,
    ensures
        rows_at(rows, kept_positions(rows, n)) =~= rows.take(n).filter(revenue_row_pred()),
    decreases n,
{
    reveal_with_fuel(Seq::filter, 1);
    if n > 0 {
        lemma_kept_prefix_is_filter(rows, n - 1);
        assert(rows.take(n).drop_last() =~= rows.take(n - 1));
        assert(rows.take(n).last() == rows[n - 1]);
    } else {
        assert(rows.take(0) =~= Seq::<InputRow>::empty());
    }
}

/// The kept rows are the revenue-proportion rows, in order.
pub proof fn lemma_kept_rows_are_revenue_rows(rows: Seq<InputRow>)
    requires
        rows.len() <= usize::MAX,
    ensures
        kept_rows(rows) == rows.filter(revenue_row_pred()),
{
    lemma_kept_prefix_is_filter(rows, rows.len() as int);
    assert(rows.take(rows.len() as int) =~= rows);
}

/// Cleaning two tables one after the other keeps the rows that cleaning
/// each keeps, in order.
pub proof fn lemma_kept_rows_of_concatenation(first: Seq<InputRow>, second: Seq<InputRow>)
    requires
        first.len() + second.len() <= usize::MAX,
    ensures
        kept_rows(first + second) == kept_rows(first) + kept_rows(second),
{
    lemma_kept_rows_are_revenue_rows(first + second);
    lemma_kept_rows_are_revenue_rows(first);
    lemma_kept_rows_are_revenue_rows(second);
    Seq::filter_distributes_over_add(first, second, revenue_row_pred());
}

/// Rows whose metric is not the revenue proportion do not change a
/// cleaning: inserting such a row anywhere leaves the kept rows, and so their
/// search terms, as they were.
pub proof fn lemma_other_row_changes_nothing(rows: Seq<InputRow>, position: int, row: InputRow)
    requires
        0 <= position <= rows.len(),
        rows.len() + 1 <= usize::MAX,
        !is_revenue_row(row),
    ensures
        kept_rows(rows.insert(position, row)) == kept_rows(rows),
        kept_rows(rows.insert(position, row)).map_values(|r: InputRow| r.search_term) == kept_rows(
            rows,
        ).map_values(|r: InputRow| r.search_term),
{
    let before = rows.take(position);
    let after = rows.skip(position);
    assert(rows.insert(position, row) =~= before + seq![row] + after);
    assert(rows =~= before + after);
    lemma_kept_rows_of_concatenation(before + seq![row], after);
    lemma_kept_rows_of_concatenation(before, seq![row]);
    lemma_kept_rows_of_concatenation(before, after);
    lemma_kept_rows_are_revenue_rows(seq![row]);
    reveal_with_fuel(Seq::filter, 2);
    assert(seq![row].drop_last() =~= Seq::<InputRow>::empty());
    assert(kept_rows(seq![row]) =~= Seq::<InputRow>::empty());
    assert(kept_rows(before) + Seq::<InputRow>::empty() =~= kept_rows(before));
}

} // verus!

verus! {

/// The text `revenue_proportion`, character by character.
pub open spec fn revenue_proportion_text() -> Seq<char> {
    seq!['r', 'e', 'v', 'e', 'n', 'u', 'e', '_', 'p', 'r', 'o', 'p', 'o', 'r', 't', 'i', 'o', 'n']
}

/// A row is a revenue-proportion row, and so scaled, exactly when its metric
/// is the whole text `revenue_proportion`; every other row, and a row
/// without a metric, gets zero.
pub proof fn lemma_rule_is_exact_metric(row: InputRow)
    ensures
        is_revenue_row(row) <==> (row.metric matches Some(m) && m@ == revenue_proportion_text()),
        rule_of(row) == ProportionRule::ScaledRevenue <==> (row.metric matches Some(m) && m@
            == revenue_proportion_text()),
        rule_of(row) == ProportionRule::Zero <==> !(row.metric matches Some(m) && m@
            == revenue_proportion_text()),
{
    reveal_strlit("revenue_proportion");
    assert(REVENUE_PROPORTION@ =~= revenue_proportion_text());
}

/// A row is kept exactly when its metric is the whole text
/// `revenue_proportion`.
pub proof fn lemma_kept_exactly_revenue_metrics(rows: Seq<InputRow>, i: int)
    requires
        rows.len() <= usize::MAX,
        0 <= i < rows.len(),
    ensures
        kept_positions(rows, rows.len() as int).contains(i as usize) <==> (rows[i].metric matches Some(
            m,
        ) && m@ == revenue_proportion_text()),
{
    lemma_kept_positions(rows, rows.len() as int);
    lemma_rule_is_exact_metric(rows[i]);
    let kept = kept_positions(rows, rows.len() as int);
    if kept.contains(i as usize) {
        let k = choose|k: int| 0 <= k < kept.len() && kept[k] == i as usize;
        assert(is_revenue_row(rows[kept[k] as int]));
        assert(kept[k] as int == i);
    }
    if is_revenue_row(rows[i]) {
        assert(kept.contains(i as usize));
    }
}

} // verus!
