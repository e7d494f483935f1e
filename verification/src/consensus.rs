//! Stake-weighted consensus arithmetic with checked `u64` accumulation.

use vstd::prelude::*;
use soroban_sdk::Env;
use crate::error::{u64_or_overflow, ContractError};
use crate::host::{value_index_entries, value_index_get, value_index_new, value_index_set};

verus! {

/// Basis-point denominator used when converting a BPS fraction to a multiplier.
pub const BPS_DENOMINATOR: u64 = 10_000;

/// A single provider's submission paired with its consensus weight (stake amount).
#[derive(Clone, Copy, Debug, PartialEq, Eq, Structural)]
pub struct WeightedEntry {
    /// Raw submitted value (e.g. price in smallest denomination).
    pub value: u64,
    /// Weight assigned to this entry, typically the provider's staked amount.
    pub weight: u64,
}

/// The entries as (value, weight) rows of unbounded integers.
pub open spec fn rows_of(entries: Seq<WeightedEntry>) -> Seq<(int, int)> {
    entries.map_values(|e: WeightedEntry| (e.value as int, e.weight as int))
}

/// Position of the last row holding `value`, or -1 if no row holds it.
pub open spec fn position_of(rows: Seq<(int, int)>, value: int) -> int
    decreases rows.len(),
{
    if rows.len() == 0 {
        -1
    } else if rows.last().0 == value {
        rows.len() - 1
    } else {
        position_of(rows.drop_last(), value)
    }
}

/// Adds one entry to compacted rows: its weight joins the row of its value,
/// or a new row for the value is appended.
pub open spec fn merge_entry(rows: Seq<(int, int)>, entry: WeightedEntry) -> Seq<(int, int)> {
    let p = position_of(rows, entry.value as int);
    if p >= 0 {
        rows.update(p, (rows[p].0, rows[p].1 + entry.weight))
    } else {
        rows.push((entry.value as int, entry.weight as int))
    }
}

/// One row per distinct value, in order of first appearance, carrying the
/// summed weight of every entry with that value.
pub open spec fn compacted_rows(entries: Seq<WeightedEntry>) -> Seq<(int, int)>
    decreases entries.len(),
{
    if entries.len() == 0 {
        Seq::empty()
    } else {
        merge_entry(compacted_rows(entries.drop_last()), entries.last())
    }
}

/// Every merged weight fits in a `u64`.
pub open spec fn weights_fit(rows: Seq<(int, int)>) -> bool {
    forall|i: int| 0 <= i < rows.len() ==> #[trigger] rows[i].1 <= u64::MAX
}

/// Sum of `value * weight` over the rows.
pub open spec fn weighted_total(rows: Seq<(int, int)>) -> int
    decreases rows.len(),
{
    if rows.len() == 0 {
        0
    } else {
        weighted_total(rows.drop_last()) + rows.last().0 * rows.last().1
    }
}

/// Sum of the weights of the rows.
pub open spec fn weight_total(rows: Seq<(int, int)>) -> int
    decreases rows.len(),
{
    if rows.len() == 0 {
        0
    } else {
        weight_total(rows.drop_last()) + rows.last().1
    }
}

/// Rows whose values and weights are all non-negative.
pub open spec fn rows_nonneg(rows: Seq<(int, int)>) -> bool {
    forall|i: int| 0 <= i < rows.len() ==> 0 <= #[trigger] rows[i].0 && 0 <= rows[i].1
}

/// The weighted sum of the rows can be accumulated in `u64` with every
/// product and every running total checked.
pub open spec fn weighted_sum_fits(rows: Seq<(int, int)>) -> bool {
    &&& weights_fit(rows)
    &&& forall|i: int| 0 <= i < rows.len() ==> #[trigger] rows[i].0 * rows[i].1 <= u64::MAX
    &&& weighted_total(rows) <= u64::MAX
    &&& weight_total(rows) <= u64::MAX
}

/// `entries[i]` is the first entry that carries its value.
pub open spec fn first_of_value(entries: Seq<WeightedEntry>, i: int) -> bool {
    forall|j: int| 0 <= j < i ==> #[trigger] entries[j].value != entries[i].value
}

/// Sum of `value * weight` over the first entry of each distinct value: a
/// price is credited once, at the weight of its first row.
pub open spec fn first_weighted_total(entries: Seq<WeightedEntry>) -> int
    decreases entries.len(),
{
    if entries.len() == 0 {
        0
    } else {
        first_weighted_total(entries.drop_last()) + if first_of_value(
            entries,
            entries.len() - 1,
        ) {
            entries.last().value * entries.last().weight
        } else {
            0
        }
    }
}

proof fn lemma_position_of(rows: Seq<(int, int)>, value: int)
    ensures
        -1 <= position_of(rows, value) < rows.len(),
        position_of(rows, value) >= 0 ==> rows[position_of(rows, value)].0 == value,
        position_of(rows, value) == -1 ==> forall|j: int| 0 <= j < rows.len() ==> #[trigger] rows[j].0 != value,
    decreases rows.len(),
{
    if rows.len() > 0 {
        lemma_position_of(rows.drop_last(), value);
        if rows.last().0 != value {
            assert forall|j: int| 0 <= j < rows.len() - 1 implies #[trigger] rows[j] == rows.drop_last()[j] by {}
        }
    }
}

proof fn lemma_position_after_update(rows: Seq<(int, int)>, p: int, row: (int, int), value: int)
    requires
        0 <= p < rows.len(),
        row.0 == rows[p].0,
    ensures
        position_of(rows.update(p, row), value) == position_of(rows, value),
    decreases rows.len(),
{
    let updated = rows.update(p, row);
    if p < rows.len() - 1 {
        assert(updated.drop_last() =~= rows.drop_last().update(p, row));
        lemma_position_after_update(rows.drop_last(), p, row, value);
    } else {
        assert(updated.drop_last() =~= rows.drop_last());
    }
}

proof fn lemma_position_after_push(rows: Seq<(int, int)>, row: (int, int), value: int)
    ensures
        position_of(rows.push(row), value) == (if row.0 == value {
            rows.len() as int
        } else {
            position_of(rows, value)
        }),
{
    assert(rows.push(row).drop_last() =~= rows);
}

/// Merging an entry keeps every existing row's value and never lowers its weight.
proof fn lemma_merge_grows(rows: Seq<(int, int)>, entry: WeightedEntry)
    ensures
        merge_entry(rows, entry).len() >= rows.len(),
        forall|j: int|
            #![trigger merge_entry(rows, entry)[j]]
            0 <= j < rows.len() ==> merge_entry(rows, entry)[j].0 == rows[j].0
                && merge_entry(rows, entry)[j].1 >= rows[j].1,
{
    lemma_position_of(rows, entry.value as int);
}

/// Compacting a longer prefix keeps the rows of a shorter one, with weights
/// that are at least as large.
proof fn lemma_compacted_grows(entries: Seq<WeightedEntry>, k: int, n: int)
    requires
        0 <= k <= n <= entries.len(),
    ensures
        compacted_rows(entries.take(n)).len() >= compacted_rows(entries.take(k)).len(),
        forall|j: int|
            0 <= j < compacted_rows(entries.take(k)).len() ==> #[trigger] compacted_rows(
                entries.take(n),
            )[j].1 >= compacted_rows(entries.take(k))[j].1,
    decreases n - k,
{
    if k < n {
        lemma_compacted_grows(entries, k, n - 1);
        assert(entries.take(n).drop_last() =~= entries.take(n - 1));
        let prev = compacted_rows(entries.take(n - 1));
        lemma_merge_grows(prev, entries.take(n).last());
        assert(compacted_rows(entries.take(n)) == merge_entry(prev, entries.take(n).last()));
        assert forall|j: int|
            0 <= j < compacted_rows(entries.take(k)).len() implies #[trigger] compacted_rows(
                entries.take(n),
            )[j].1 >= compacted_rows(entries.take(k))[j].1 by {
            assert(merge_entry(prev, entries.take(n).last())[j].1 >= prev[j].1);
        }
    }
}

proof fn lemma_weighted_total_update(rows: Seq<(int, int)>, p: int, row: (int, int))
    requires
        0 <= p < rows.len(),
    ensures
        weighted_total(rows.update(p, row)) == weighted_total(rows) - rows[p].0 * rows[p].1
            + row.0 * row.1,
        weight_total(rows.update(p, row)) == weight_total(rows) - rows[p].1 + row.1,
    decreases rows.len(),
{
    let updated = rows.update(p, row);
    if p < rows.len() - 1 {
        assert(updated.drop_last() =~= rows.drop_last().update(p, row));
        lemma_weighted_total_update(rows.drop_last(), p, row);
    } else {
        assert(updated.drop_last() =~= rows.drop_last());
    }
}

/// Compaction moves weight between rows of the same value only, so the
/// weighted total and the weight total of the raw entries are kept.
pub proof fn lemma_compaction_keeps_totals(entries: Seq<WeightedEntry>)
    ensures
        weighted_total(compacted_rows(entries)) == weighted_total(rows_of(entries)),
        weight_total(compacted_rows(entries)) == weight_total(rows_of(entries)),
    decreases entries.len(),
{
    if entries.len() > 0 {
        let prev = compacted_rows(entries.drop_last());
        let e = entries.last();
        lemma_compaction_keeps_totals(entries.drop_last());
        assert(rows_of(entries).drop_last() =~= rows_of(entries.drop_last()));
        lemma_position_of(prev, e.value as int);
        let p = position_of(prev, e.value as int);
        if p >= 0 {
            lemma_weighted_total_update(prev, p, (prev[p].0, prev[p].1 + e.weight));
            assert(prev[p].0 * (prev[p].1 + e.weight) == prev[p].0 * prev[p].1 + prev[p].0
                * e.weight) by (nonlinear_arith);
        } else {
            assert(prev.push((e.value as int, e.weight as int)).drop_last() =~= prev);
        }
    }
}

/// Compaction leaves one row per value: no two rows share a value.
pub proof fn lemma_compacted_values_distinct(entries: Seq<WeightedEntry>)
    ensures
        forall|i: int, j: int|
            0 <= i < j < compacted_rows(entries).len() ==> #[trigger] compacted_rows(entries)[i].0
                != #[trigger] compacted_rows(entries)[j].0,
    decreases entries.len(),
{
    if entries.len() > 0 {
        let prev = compacted_rows(entries.drop_last());
        let e = entries.last();
        lemma_compacted_values_distinct(entries.drop_last());
        lemma_position_of(prev, e.value as int);
        let rows = compacted_rows(entries);
        assert forall|i: int, j: int| 0 <= i < j < rows.len() implies #[trigger] rows[i].0
            != #[trigger] rows[j].0 by {
            if j < prev.len() {
                assert(rows[i].0 == prev[i].0 && rows[j].0 == prev[j].0);
            } else {
                assert(rows[i].0 == prev[i].0);
            }
        }
    }
}

proof fn lemma_totals_nonneg_prefix(rows: Seq<(int, int)>, k: int)
    requires
        rows_nonneg(rows),
        0 <= k <= rows.len(),
    ensures
        0 <= weighted_total(rows.take(k)) <= weighted_total(rows),
        0 <= weight_total(rows.take(k)) <= weight_total(rows),
    decreases rows.len(),
{
    if rows.len() > 0 {
        let last = rows.last();
        assert(0 <= last.0 * last.1) by (nonlinear_arith)
            requires
                0 <= last.0,
                0 <= last.1,
        ;
        if k == rows.len() {
            assert(rows.take(k) =~= rows);
            lemma_totals_nonneg_prefix(rows.drop_last(), k - 1);
        } else {
            assert(rows.take(k) =~= rows.drop_last().take(k));
            lemma_totals_nonneg_prefix(rows.drop_last(), k);
        }
    }
}

proof fn lemma_compacted_nonneg(entries: Seq<WeightedEntry>)
    ensures
        rows_nonneg(compacted_rows(entries)),
    decreases entries.len(),
{
    if entries.len() > 0 {
        lemma_compacted_nonneg(entries.drop_last());
        lemma_position_of(compacted_rows(entries.drop_last()), entries.last().value as int);
    }
}

/// Crediting each price once never exceeds crediting every row.
proof fn lemma_first_total_bounded(entries: Seq<WeightedEntry>)
    ensures
        0 <= first_weighted_total(entries) <= weighted_total(rows_of(entries)),
    decreases entries.len(),
{
    if entries.len() > 0 {
        lemma_first_total_bounded(entries.drop_last());
        assert(rows_of(entries).drop_last() =~= rows_of(entries.drop_last()));
        let e = entries.last();
        assert(rows_of(entries).last() == (e.value as int, e.weight as int));
        assert(0 <= e.value * e.weight) by (nonlinear_arith);
    }
}

/// With no price repeated, crediting each price at its first row credits
/// every row: the weighted sum is the plain sum of `value * weight`.
pub proof fn lemma_distinct_prices_credit_every_row(entries: Seq<WeightedEntry>)
    requires
        forall|i: int, j: int|
            0 <= i < j < entries.len() ==> #[trigger] entries[i].value != #[trigger] entries[j].value,
    ensures
        first_weighted_total(entries) == weighted_total(rows_of(entries)),
    decreases entries.len(),
{
    if entries.len() > 0 {
        let n = entries.len() - 1;
        assert forall|i: int, j: int|
            0 <= i < j < entries.drop_last().len() implies #[trigger] entries.drop_last()[i].value
            != #[trigger] entries.drop_last()[j].value by {
            assert(entries[i].value != entries[j].value);
        }
        lemma_distinct_prices_credit_every_row(entries.drop_last());
        assert(rows_of(entries).drop_last() =~= rows_of(entries.drop_last()));
        assert(first_of_value(entries, n)) by {
            assert forall|j: int| 0 <= j < n implies #[trigger] entries[j].value != entries[n].value by {
                assert(entries[j].value != entries[n].value);
            }
        }
    }
}

/// Multiply a raw value by a weight, returning `Overflow` when the product
/// does not fit in a `u64`.
pub fn apply_weight(value: u64, weight: u64) -> (r: Result<u64, ContractError>)
    ensures
        r == u64_or_overflow(value * weight),
{
    match value.checked_mul(weight) {
        Some(p) => Ok(p),
        None => Err(ContractError::Overflow),
    }
}

/// Merge rows that carry the same value: one row per distinct value, in
/// order of first appearance, with the summed weight of all its rows.
/// Fails with `Overflow` exactly when some merged weight exceeds `u64`.
pub fn compact_duplicate_price_rows(env: &Env, entries: &Vec<WeightedEntry>) -> (r: Result<
    Vec<WeightedEntry>,
    ContractError,
>)
    ensures
        r is Ok <==> weights_fit(compacted_rows(entries@)),
        r matches Ok(compacted) ==> rows_of(compacted@) == compacted_rows(entries@),
        r matches Err(e) ==> e == ContractError::Overflow,
{
    let mut compacted: Vec<WeightedEntry> = Vec::new();
    let mut index_by_value = value_index_new(env);
    let n = entries.len();
    let mut i: usize = 0;
    assert(entries@.take(0) =~= Seq::<WeightedEntry>::empty());
    assert(rows_of(compacted@) =~= Seq::<(int, int)>::empty());
    while i < n
        invariant
            n == entries.len(),
            i <= n,
            compacted.len() <= i,
            rows_of(compacted@) == compacted_rows(entries@.take(i as int)),
            forall|v: u64|
                #[trigger] value_index_entries(index_by_value).contains_key(v) <==> position_of(
                    rows_of(compacted@),
                    v as int,
                ) >= 0,
            forall|v: u64|
                #[trigger] value_index_entries(index_by_value).contains_key(v)
                    ==> value_index_entries(index_by_value)[v] == position_of(
                    rows_of(compacted@),
                    v as int,
                ),
        decreases n - i,
    {
        let entry = entries[i];
        let ghost rows = rows_of(compacted@);
        proof {
            assert(entries@.take(i + 1).drop_last() =~= entries@.take(i as int));
            assert(entries@.take(i + 1).last() == entry);
            lemma_position_of(rows, entry.value as int);
        }
        match value_index_get(&index_by_value, entry.value) {
            Some(existing_index) => {
                let idx = existing_index as usize;
                let existing = compacted[idx];
                match existing.weight.checked_add(entry.weight) {
                    Some(merged_weight) => {
                        let merged = WeightedEntry { value: existing.value, weight: merged_weight };
                        compacted.set(idx, merged);
                        proof {
                            let row = (rows[idx as int].0, rows[idx as int].1 + entry.weight);
                            assert(rows_of(compacted@) =~= rows.update(idx as int, row));
                            assert forall|v: u64| true implies position_of(
                                rows_of(compacted@),
                                v as int,
                            ) == position_of(rows, v as int) by {
                                lemma_position_after_update(rows, idx as int, row, v as int);
                            }
                        }
                    },
                    None => {
                        proof {
                            let grown = compacted_rows(entries@.take(i + 1));
                            lemma_compacted_grows(entries@, i + 1, n as int);
                            assert(entries@.take(n as int) =~= entries@);
                            assert(grown[idx as int].1 > u64::MAX);
                            assert(compacted_rows(entries@)[idx as int].1 > u64::MAX);
                        }
                        return Err(ContractError::Overflow);
                    },
                }
            },
            None => {
                let index = compacted.len() as u64;
                compacted.push(entry);
                value_index_set(&mut index_by_value, entry.value, index);
                proof {
                    let row = (entry.value as int, entry.weight as int);
                    assert(rows_of(compacted@) =~= rows.push(row));
                    assert forall|v: u64| true implies position_of(rows_of(compacted@), v as int) == (
                    if v == entry.value {
                        rows.len() as int
                    } else {
                        position_of(rows, v as int)
                    }) by {
                        lemma_position_after_push(rows, row, v as int);
                    }
                }
            },
        }
        i = i + 1;
    }
    proof {
        assert(entries@.take(n as int) =~= entries@);
    }
    Ok(compacted)
}

/// Accumulate `(weighted sum, total weight)` over the dataset after merging
/// rows of equal value. Each distinct price enters the weighted sum once, at
/// the weight of its first row; every row's weight enters the total. The
/// merged rows' products and running totals are checked, and any overflow
/// there yields `Overflow`.
pub fn compute_weighted_sum(env: &Env, entries: &Vec<WeightedEntry>) -> (r: Result<
    (u64, u64),
    ContractError,
>)
    ensures
        r is Ok <==> weighted_sum_fits(compacted_rows(entries@)),
        r matches Ok(sums) ==> sums.0 == first_weighted_total(entries@) && sums.1
            == weight_total(rows_of(entries@)),
        r matches Err(e) ==> e == ContractError::Overflow,
{
    proof {
        lemma_compaction_keeps_totals(entries@);
        lemma_compacted_nonneg(entries@);
        lemma_first_total_bounded(entries@);
    }
    let compacted = match compact_duplicate_price_rows(env, entries) {
        Ok(c) => c,
        Err(e) => {
            return Err(e);
        },
    };
    let ghost rows = rows_of(compacted@);
    let mut weighted_sum: u64 = 0;
    let mut total_weight: u64 = 0;
    let m = compacted.len();
    let mut i: usize = 0;
    assert(rows.take(0) =~= Seq::<(int, int)>::empty());
    while i < m
        invariant
            m == compacted.len(),
            rows == rows_of(compacted@),
            rows == compacted_rows(entries@),
            rows_nonneg(rows),
            i <= m,
            weighted_sum == weighted_total(rows.take(i as int)),
            total_weight == weight_total(rows.take(i as int)),
            forall|j: int| 0 <= j < i ==> #[trigger] rows[j].0 * rows[j].1 <= u64::MAX,
        decreases m - i,
    {
        let entry = compacted[i];
        proof {
            assert(rows.take(i + 1).drop_last() =~= rows.take(i as int));
            assert(rows[i as int] == (entry.value as int, entry.weight as int));
        }
        let weighted_value = match apply_weight(entry.value, entry.weight) {
            Ok(w) => w,
            Err(e) => {
                proof {
                    assert(rows[i as int].0 * rows[i as int].1 > u64::MAX);
                    assert(!weighted_sum_fits(rows));
                }
                return Err(e);
            },
        };
        weighted_sum = match weighted_sum.checked_add(weighted_value) {
            Some(s) => s,
            None => {
                proof {
                    lemma_totals_nonneg_prefix(rows, i + 1);
                    assert(!weighted_sum_fits(rows));
                }
                return Err(ContractError::Overflow);
            },
        };
        total_weight = match total_weight.checked_add(entry.weight) {
            Some(t) => t,
            None => {
                proof {
                    lemma_totals_nonneg_prefix(rows, i + 1);
                    assert(!weighted_sum_fits(rows));
                }
                return Err(ContractError::Overflow);
            },
        };
        i = i + 1;
    }
    proof {
        assert(rows.take(m as int) =~= rows);
    }
    let credited = first_price_credit(entries);
    Ok((credited, total_weight))
}

/// Sum of `value * weight` over the first row of each distinct value.
fn first_price_credit(entries: &Vec<WeightedEntry>) -> (credited: u64)
    requires
        weighted_total(rows_of(entries@)) <= u64::MAX,
    ensures
        credited == first_weighted_total(entries@),
{
    let n = entries.len();
    let mut credited: u64 = 0;
    let mut i: usize = 0;
    assert(entries@.take(0) =~= Seq::<WeightedEntry>::empty());
    while i < n
        invariant
            n == entries.len(),
            i <= n,
            weighted_total(rows_of(entries@)) <= u64::MAX,
            credited == first_weighted_total(entries@.take(i as int)),
        decreases n - i,
    {
        let entry = entries[i];
        let mut seen = false;
        let mut j: usize = 0;
        while j < i
            invariant_except_break
                !seen,
            invariant
                j <= i < n,
                n == entries.len(),
                entry == entries@[i as int],
                forall|k: int| 0 <= k < j ==> #[trigger] entries@[k].value != entry.value,
            ensures
                seen <==> !first_of_value(entries@, i as int),
            decreases i - j,
        {
            if entries[j].value == entry.value {
                seen = true;
                break;
            }
            j = j + 1;
        }
        proof {
            let t = entries@.take(i + 1);
            assert(t.drop_last() =~= entries@.take(i as int));
            assert(t.last() == entry);
            assert(first_of_value(t, i as int) <==> first_of_value(entries@, i as int)) by {
                assert(t[i as int] == entries@[i as int]);
                if first_of_value(t, i as int) {
                    assert forall|k: int| 0 <= k < i implies #[trigger] entries@[k].value
                        != entries@[i as int].value by {
                        assert(t[k] == entries@[k]);
                        assert(t[k].value != t[i as int].value);
                    }
                }
                if first_of_value(entries@, i as int) {
                    assert forall|k: int| 0 <= k < i implies #[trigger] t[k].value
                        != t[i as int].value by {
                        assert(t[k] == entries@[k]);
                        assert(entries@[k].value != entries@[i as int].value);
                    }
                }
            }
            lemma_first_total_bounded(t);
            assert(rows_of(t) =~= rows_of(entries@).take(i + 1));
            lemma_totals_nonneg_prefix(rows_of(entries@), i + 1);
            assert(rows_nonneg(rows_of(entries@)));
        }
        if !seen {
            credited = credited + entry.value * entry.weight;
        }
        i = i + 1;
    }
    assert(entries@.take(n as int) =~= entries@);
    credited
}

/// Compute the stake-weighted average across all entries: the weighted sum
/// of `compute_weighted_sum` divided by the total weight, and 0 when the
/// total weight is 0.
pub fn compute_weighted_average(env: &Env, entries: &Vec<WeightedEntry>) -> (r: Result<
    u64,
    ContractError,
>)
    ensures
        r is Ok <==> weighted_sum_fits(compacted_rows(entries@)),
        r matches Ok(average) ==> average == (if weight_total(rows_of(entries@)) == 0 {
            0
        } else {
            first_weighted_total(entries@) / weight_total(rows_of(entries@))
        }),
        r matches Err(e) ==> e == ContractError::Overflow,
{
    let (weighted_sum, total_weight) = match compute_weighted_sum(env, entries) {
        Ok(sums) => sums,
        Err(e) => {
            return Err(e);
        },
    };
    if total_weight == 0 {
        return Ok(0);
    }
    Ok(weighted_sum / total_weight)
}

/// Compute the minimum weight required for quorum: `quorum_bps` basis points
/// of `total_weight`, rounded down. The product is checked before dividing.
pub fn compute_quorum_threshold(total_weight: u64, quorum_bps: u64) -> (r: Result<
    u64,
    ContractError,
>)
    ensures
        r is Ok <==> total_weight * quorum_bps <= u64::MAX,
        r matches Ok(threshold) ==> threshold == total_weight * quorum_bps / 10_000int,
        quorum_bps <= 10_000 ==> (r matches Ok(threshold) ==> threshold <= total_weight),
        r matches Err(e) ==> e == ContractError::Overflow,
{
    let numerator = match total_weight.checked_mul(quorum_bps) {
        Some(n) => n,
        None => {
            return Err(ContractError::Overflow);
        },
    };
    proof {
        if quorum_bps <= 10_000 {
            assert(total_weight * quorum_bps <= total_weight * 10_000) by (nonlinear_arith)
                requires
                    quorum_bps <= 10_000,
            ;
        }
    }
    Ok(numerator / BPS_DENOMINATOR)
}

/// Scale a raw consensus score by a precision multiplier, with `Overflow`
/// when the product does not fit in a `u64`.
pub fn normalize_weight_score(raw_score: u64, precision: u64) -> (r: Result<u64, ContractError>)
    ensures
        r == u64_or_overflow(raw_score * precision),
{
    match raw_score.checked_mul(precision) {
        Some(p) => Ok(p),
        None => Err(ContractError::Overflow),
    }
}

/// The share of `total_weight` held by `entry_weight`, in basis points,
/// rounded down; 0 when the total is 0. A share is always in `0..=10_000`:
/// an entry heavier than the total, whose share would pass the full
/// 10 000 BPS, is refused with `Overflow`, as is an entry whose product
/// `entry_weight * 10_000` does not fit in a `u64`.
pub fn entry_weight_share_bps(entry_weight: u64, total_weight: u64) -> (r: Result<
    u64,
    ContractError,
>)
    ensures
        r is Ok <==> total_weight == 0 || (entry_weight <= total_weight && entry_weight * 10_000
            <= u64::MAX),
        r matches Ok(share) ==> share == (if total_weight == 0 {
            0
        } else {
            entry_weight * 10_000 / (total_weight as int)
        }),
        r matches Ok(share) ==> share <= 10_000,
        r matches Err(e) ==> e == ContractError::Overflow,
{
    if total_weight == 0 {
        return Ok(0);
    }
    if entry_weight > total_weight {
        return Err(ContractError::Overflow);
    }
    let numerator = match entry_weight.checked_mul(BPS_DENOMINATOR) {
        Some(n) => n,
        None => {
            return Err(ContractError::Overflow);
        },
    };
    assert(entry_weight * 10_000 / (total_weight as int) <= 10_000) by (nonlinear_arith)
        requires
            entry_weight <= total_weight,
            total_weight > 0,
    {
        assert(entry_weight * 10_000 <= total_weight * 10_000);
    }
    Ok(numerator / total_weight)
}

} // verus!
