//! Per-column statistics of a table: row count, minimum and maximum values,
//! null counts.

use vstd::prelude::*;
use crate::text::{lex_less, str_less};
use crate::table::{ColumnType, min_len, int32_or_zero, ColumnData};

verus! {

/// A minimum or maximum value: a number for an `Int32` column, a string for
/// any other column.
#[derive(Debug)]
pub enum StatValue {
    Int(i32),
    Text(String),
}

/// The statistics of a table, one entry per column in column order.
#[derive(Debug)]
pub struct ColumnStats {
    pub num_records: usize,
    pub min_values: Vec<(String, StatValue)>,
    pub max_values: Vec<(String, StatValue)>,
    pub null_count: Vec<(String, usize)>,
}

impl ColumnStats {
    /// These are the statistics of a table with the given columns, headers
    /// and column types, as `calculate_column_stats` computes them.
    pub open spec fn describes(
        self,
        columns: Seq<Seq<Seq<char>>>,
        headers: Seq<Seq<char>>,
        types: Seq<ColumnType>,
    ) -> bool {
        let m = min_len(headers.len(), types.len());
        &&& self.num_records == columns[0].len()
        &&& stat_entries(self.min_values@) == extreme_entries(columns, headers, types, m, false)
        &&& stat_entries(self.max_values@) == extreme_entries(columns, headers, types, m, true)
        &&& count_entries(self.null_count@) == Seq::new(m, |i: int| (headers[i], 0nat))
    }
}

/// A statistic value as plain data.
pub enum StatModel {
    Int(i32),
    Text(Seq<char>),
}

pub open spec fn stat_model(v: StatValue) -> StatModel {
    match v {
        StatValue::Int(i) => StatModel::Int(i),
        StatValue::Text(s) => StatModel::Text(s@),
    }
}

pub open spec fn stat_entries(v: Seq<(String, StatValue)>) -> Seq<(Seq<char>, StatModel)> {
    Seq::new(v.len(), |i: int| (v[i].0@, stat_model(v[i].1)))
}

pub open spec fn count_entries(v: Seq<(String, usize)>) -> Seq<(Seq<char>, nat)> {
    Seq::new(v.len(), |i: int| (v[i].0@, v[i].1 as nat))
}

/// Smallest of a non-empty sequence of integers.
pub open spec fn seq_min_i32(s: Seq<i32>) -> i32
    decreases s.len(),
{
    if s.len() <= 1 {
        s[0]
    } else {
        let m = seq_min_i32(s.drop_last());
        if s.last() < m { s.last() } else { m }
    }
}

/// Largest of a non-empty sequence of integers.
pub open spec fn seq_max_i32(s: Seq<i32>) -> i32
    decreases s.len(),
{
    if s.len() <= 1 {
        s[0]
    } else {
        let m = seq_max_i32(s.drop_last());
        if s.last() < m { m } else { s.last() }
    }
}

/// Lexicographically smallest of a non-empty sequence of strings.
pub open spec fn seq_min_text(s: Seq<Seq<char>>) -> Seq<char>
    decreases s.len(),
{
    if s.len() <= 1 {
        s[0]
    } else {
        let m = seq_min_text(s.drop_last());
        if lex_less(s.last(), m) { s.last() } else { m }
    }
}

/// Lexicographically largest of a non-empty sequence of strings.
pub open spec fn seq_max_text(s: Seq<Seq<char>>) -> Seq<char>
    decreases s.len(),
{
    if s.len() <= 1 {
        s[0]
    } else {
        let m = seq_max_text(s.drop_last());
        if lex_less(s.last(), m) { m } else { s.last() }
    }
}

/// The values of an `Int32` column, fields that do not parse counted as 0.
pub open spec fn int_values(fields: Seq<Seq<char>>) -> Seq<i32> {
    Seq::new(fields.len(), |k: int| int32_or_zero(fields[k]))
}

/// The minimum (`want_max == false`) or maximum of a non-empty column of
/// type `t`.
pub open spec fn column_extreme(t: ColumnType, fields: Seq<Seq<char>>, want_max: bool) -> StatModel {
    if t == ColumnType::Int32 {
        StatModel::Int(
            if want_max { seq_max_i32(int_values(fields)) } else { seq_min_i32(int_values(fields)) },
        )
    } else {
        StatModel::Text(if want_max { seq_max_text(fields) } else { seq_min_text(fields) })
    }
}

/// The min (or max) entries for the first `m` columns: one per non-empty
/// column, keyed by its header, in column order.
pub open spec fn extreme_entries(
    columns: Seq<Seq<Seq<char>>>,
    headers: Seq<Seq<char>>,
    types: Seq<ColumnType>,
    m: nat,
    want_max: bool,
) -> Seq<(Seq<char>, StatModel)>
    decreases m,
{
    if m == 0 {
        Seq::empty()
    } else {
        let i = m - 1;
        let prev = extreme_entries(columns, headers, types, (m - 1) as nat, want_max);
        if columns[i].len() > 0 {
            prev.push((headers[i], column_extreme(types[i], columns[i], want_max)))
        } else {
            prev
        }
    }
}

/// Minimum and maximum of a non-empty list of integers.
fn min_max_i32(values: &Vec<i32>) -> (r: (i32, i32))
    requires
        values.len() > 0,
    ensures
        r.0 == seq_min_i32(values@),
        r.1 == seq_max_i32(values@),
{
    let mut lo = values[0];
    let mut hi = values[0];
    let mut k: usize = 1;
    while k < values.len()
        invariant
            1 <= k <= values.len(),
            lo == seq_min_i32(values@.take(k as int)),
            hi == seq_max_i32(values@.take(k as int)),
        decreases values.len() - k,
    {
        assert(values@.take(k + 1).drop_last() =~= values@.take(k as int));
        let v = values[k];
        if v < lo {
            lo = v;
        }
        if !(v < hi) {
            hi = v;
        }
        k = k + 1;
    }
    assert(values@.take(values.len() as int) =~= values@);
    (lo, hi)
}


/// The minimum of a non-empty list of integers is one of them and no larger
/// than any; the maximum likewise is one of them and no smaller than any.
pub proof fn lemma_i32_extremes_bound(s: Seq<i32>)
    requires
        s.len() > 0,
    ensures
        s.contains(seq_min_i32(s)),
        s.contains(seq_max_i32(s)),
        forall|k: int| 0 <= k < s.len() ==> seq_min_i32(s) <= #[trigger] s[k] <= seq_max_i32(s),
    decreases s.len(),
{
    if s.len() == 1 {
        assert(s[0] == s[0]);
    } else {
        let p = s.drop_last();
        lemma_i32_extremes_bound(p);
        assert forall|k: int| 0 <= k < s.len() implies seq_min_i32(s) <= #[trigger] s[k] <= seq_max_i32(s) by {
            if k < s.len() - 1 {
                assert(s[k] == p[k]);
            }
        }
        let lo = seq_min_i32(p);
        let hi = seq_max_i32(p);
        let ilo = choose|i: int| 0 <= i < p.len() && p[i] == lo;
        let ihi = choose|i: int| 0 <= i < p.len() && p[i] == hi;
        assert(s[ilo] == lo);
        assert(s[ihi] == hi);
        assert(s[s.len() - 1] == s.last());
    }
}

/// The lexicographic minimum of a non-empty list of strings is one of them
/// and no string of the list comes before it; the maximum is one of them and
/// comes before none of them.
pub proof fn lemma_text_extremes_bound(s: Seq<Seq<char>>)
    requires
        s.len() > 0,
    ensures
        s.contains(seq_min_text(s)),
        s.contains(seq_max_text(s)),
        forall|k: int| 0 <= k < s.len() ==> !lex_less(#[trigger] s[k], seq_min_text(s)),
        forall|k: int| 0 <= k < s.len() ==> !lex_less(seq_max_text(s), #[trigger] s[k]),
    decreases s.len(),
{
    if s.len() == 1 {
        crate::text::lemma_lex_less_irreflexive(s[0]);
        assert(s[0] == s[0]);
    } else {
        let p = s.drop_last();
        lemma_text_extremes_bound(p);
        let lo = seq_min_text(p);
        let hi = seq_max_text(p);
        let x = s.last();
        assert forall|k: int| 0 <= k < s.len() implies !lex_less(#[trigger] s[k], seq_min_text(s)) by {
            crate::text::lemma_lex_less_irreflexive(x);
            if k < s.len() - 1 {
                assert(s[k] == p[k]);
                assert(!lex_less(p[k], lo));
                if lex_less(x, lo) && lex_less(s[k], x) {
                    crate::text::lemma_lex_less_transitive(s[k], x, lo);
                }
            } else {
                assert(s[k] == x);
                if !lex_less(x, lo) {
                    assert(!lex_less(x, lo));
                }
            }
        }
        assert forall|k: int| 0 <= k < s.len() implies !lex_less(seq_max_text(s), #[trigger] s[k]) by {
            crate::text::lemma_lex_less_irreflexive(x);
            if k < s.len() - 1 {
                assert(s[k] == p[k]);
                assert(!lex_less(hi, p[k]));
                if !lex_less(x, hi) && lex_less(x, s[k]) {
                    crate::text::lemma_lex_less_total(x, hi);
                    if lex_less(hi, x) {
                        crate::text::lemma_lex_less_transitive(hi, x, s[k]);
                    }
                }
            } else {
                assert(s[k] == x);
                if lex_less(x, hi) {
                    crate::text::lemma_lex_less_total(hi, x);
                    if lex_less(hi, x) {
                        crate::text::lemma_lex_less_transitive(hi, x, hi);
                        crate::text::lemma_lex_less_irreflexive(hi);
                    }
                }
            }
        }
        let ilo = choose|i: int| 0 <= i < p.len() && p[i] == lo;
        let ihi = choose|i: int| 0 <= i < p.len() && p[i] == hi;
        assert(s[ilo] == lo);
        assert(s[ihi] == hi);
        assert(s[s.len() - 1] == x);
    }
}

/// The minimum and maximum of a non-empty column: for an `Int32` column,
/// numbers taken by some field (read as `i32`, 0 when it does not parse) and
/// bounding every field's number; for any other column, fields of the
/// column such that no field comes before the minimum and the maximum comes
/// before no field, in code-point order with a proper prefix first.
pub proof fn lemma_column_extreme(t: ColumnType, fields: Seq<Seq<char>>)
    requires
        fields.len() > 0,
    ensures
        t == ColumnType::Int32 ==> {
            let lo = column_extreme(t, fields, false);
            let hi = column_extreme(t, fields, true);
            &&& lo is Int && hi is Int
            &&& exists|k: int| 0 <= k < fields.len() && lo->Int_0 == int32_or_zero(#[trigger] fields[k])
            &&& exists|k: int| 0 <= k < fields.len() && hi->Int_0 == int32_or_zero(#[trigger] fields[k])
            &&& forall|k: int| 0 <= k < fields.len() ==> lo->Int_0 <= int32_or_zero(#[trigger] fields[k]) <= hi->Int_0
        },
        t != ColumnType::Int32 ==> {
            let lo = column_extreme(t, fields, false);
            let hi = column_extreme(t, fields, true);
            &&& lo is Text && hi is Text
            &&& fields.contains(lo->Text_0)
            &&& fields.contains(hi->Text_0)
            &&& forall|k: int| 0 <= k < fields.len() ==> !lex_less(#[trigger] fields[k], lo->Text_0) && !lex_less(
                hi->Text_0,
                fields[k],
            )
        },
{
    let v = int_values(fields);
    lemma_i32_extremes_bound(v);
    lemma_text_extremes_bound(fields);
    if t == ColumnType::Int32 {
        let k1 = choose|k: int| 0 <= k < v.len() && v[k] == seq_min_i32(v);
        let k2 = choose|k: int| 0 <= k < v.len() && v[k] == seq_max_i32(v);
        assert(v[k1] == int32_or_zero(fields[k1]));
        assert(v[k2] == int32_or_zero(fields[k2]));
        assert forall|k: int| 0 <= k < fields.len() implies column_extreme(t, fields, false)->Int_0 <= int32_or_zero(
            #[trigger] fields[k],
        ) <= column_extreme(t, fields, true)->Int_0 by {
            assert(v[k] == int32_or_zero(fields[k]));
        }
    }
}

/// The min (or max) entries of no columns are empty; each further column
/// adds its header and extreme when it is not empty, and nothing otherwise.
pub proof fn lemma_extreme_entries_step(
    columns: Seq<Seq<Seq<char>>>,
    headers: Seq<Seq<char>>,
    types: Seq<ColumnType>,
    m: nat,
    want_max: bool,
)
    ensures
        extreme_entries(columns, headers, types, 0, want_max) == Seq::<(Seq<char>, StatModel)>::empty(),
        extreme_entries(columns, headers, types, m + 1, want_max) == if columns[m as int].len() > 0 {
            extreme_entries(columns, headers, types, m, want_max).push(
                (headers[m as int], column_extreme(types[m as int], columns[m as int], want_max)),
            )
        } else {
            extreme_entries(columns, headers, types, m, want_max)
        },
{
}

/// Minimum and maximum of a non-empty list of strings.
fn min_max_text(values: &Vec<String>) -> (r: (String, String))
    requires
        values.len() > 0,
    ensures
        r.0@ == seq_min_text(values.deep_view()),
        r.1@ == seq_max_text(values.deep_view()),
{
    let ghost view = values.deep_view();
    let mut lo: usize = 0;
    let mut hi: usize = 0;
    let mut k: usize = 1;
    assert(view.take(1) =~= seq![view[0]]);
    while k < values.len()
        invariant
            1 <= k <= values.len(),
            view == values.deep_view(),
            lo < k,
            hi < k,
            values[lo as int]@ == seq_min_text(view.take(k as int)),
            values[hi as int]@ == seq_max_text(view.take(k as int)),
        decreases values.len() - k,
    {
        assert(view.take(k + 1).drop_last() =~= view.take(k as int));
        assert(view.take(k + 1).last() == values[k as int]@);
        if str_less(values[k].as_str(), values[lo].as_str()) {
            lo = k;
        }
        if !str_less(values[k].as_str(), values[hi].as_str()) {
            hi = k;
        }
        k = k + 1;
    }
    assert(view.take(values.len() as int) =~= view);
    (values[lo].clone(), values[hi].clone())
}

/// Statistics of a table: the row count (that of the first column), and
/// for each header paired with a column type, in order, its minimum and
/// maximum when its column is not empty, and a null count of 0.  `Int32`
/// columns are compared as numbers (fields that do not parse as 0), all
/// other columns as strings.
pub fn calculate_column_stats(
    columns: &Vec<Vec<String>>,
    headers: &Vec<String>,
    column_types: &Vec<ColumnType>,
) -> (stats: ColumnStats)
    requires
        columns.len() > 0,
        columns.len() >= min_len(headers.len() as nat, column_types.len() as nat),
    ensures
        stats.describes(columns.deep_view(), headers.deep_view(), column_types@),
{
    let m = if headers.len() <= column_types.len() { headers.len() } else { column_types.len() };
    let ghost cols = columns.deep_view();
    let ghost hdrs = headers.deep_view();
    let mut min_values: Vec<(String, StatValue)> = Vec::new();
    let mut max_values: Vec<(String, StatValue)> = Vec::new();
    let mut null_count: Vec<(String, usize)> = Vec::new();
    let mut i: usize = 0;
    while i < m
        invariant
            i <= m,
            m == min_len(headers.len() as nat, column_types.len() as nat),
            columns.len() >= m,
            cols == columns.deep_view(),
            hdrs == headers.deep_view(),
            stat_entries(min_values@) == extreme_entries(cols, hdrs, column_types@, i as nat, false),
            stat_entries(max_values@) == extreme_entries(cols, hdrs, column_types@, i as nat, true),
            null_count.len() == i,
            count_entries(null_count@) == Seq::new(i as nat, |k: int| (headers[k]@, 0nat)),
        decreases m - i,
    {
        let column = &columns[i];
        if column.len() > 0 {
            match column_types[i] {
                ColumnType::Int32 => {
                    let data = crate::table::typed_column(column, ColumnType::Int32);
                    match data {
                        ColumnData::Int32(values) => {
                            assert(values@ =~= int_values(cols[i as int]));
                            let (lo, hi) = min_max_i32(&values);
                            min_values.push((headers[i].clone(), StatValue::Int(lo)));
                            max_values.push((headers[i].clone(), StatValue::Int(hi)));
                        },
                        ColumnData::Utf8(_) => {
                            assert(false);
                        },
                    }
                },
                _ => {
                    let (lo, hi) = min_max_text(column);
                    min_values.push((headers[i].clone(), StatValue::Text(lo)));
                    max_values.push((headers[i].clone(), StatValue::Text(hi)));
                },
            }
        }
        let ghost old_counts = null_count@;
        let h = headers[i].clone();
        assert(h@ == headers[i as int]@);
        null_count.push((h, 0));
        assert(null_count@.len() == old_counts.len() + 1);
        assert(forall|k: int| 0 <= k < old_counts.len() ==> null_count@[k] == old_counts[k]);
        assert(null_count@[i as int].0@ == headers[i as int]@);
        assert(stat_entries(min_values@) =~= extreme_entries(cols, hdrs, column_types@, (i + 1) as nat, false));
        assert(stat_entries(max_values@) =~= extreme_entries(cols, hdrs, column_types@, (i + 1) as nat, true));
        assert forall|k: int| 0 <= k < i + 1 implies #[trigger] count_entries(null_count@)[k] == (headers[k]@, 0nat) by {
            if k < i {
                assert(count_entries(old_counts)[k] == (headers[k]@, 0nat));
            }
        }
        assert(count_entries(null_count@) =~= Seq::new((i + 1) as nat, |k: int| (headers[k]@, 0nat)));
        i = i + 1;
    }
    assert(Seq::new(m as nat, |k: int| (hdrs[k], 0nat)) =~= Seq::new(m as nat, |k: int| (headers[k]@, 0nat)));
    assert(cols[0].len() == columns[0].len());
    ColumnStats { num_records: columns[0].len(), min_values, max_values, null_count }
}

/// `perm` is a permutation of the indices `0..n`.
pub open spec fn is_permutation(perm: Seq<int>, n: nat) -> bool {
    &&& perm.len() == n
    &&& forall|j: int| 0 <= j < n ==> 0 <= #[trigger] perm[j] < n
    &&& forall|j1: int, j2: int| 0 <= j1 < j2 < n ==> #[trigger] perm[j1] != #[trigger] perm[j2]
    &&& forall|k: int| 0 <= k < n ==> #[trigger] perm.contains(k)
}

/// A sequence whose items are those of another taken through a permutation
/// holds the same items.
proof fn lemma_permuted_same_items<T>(a: Seq<T>, b: Seq<T>, perm: Seq<int>)
    requires
        is_permutation(perm, a.len()),
        b.len() == a.len(),
        forall|j: int| 0 <= j < b.len() ==> #[trigger] b[j] == a[perm[j]],
    ensures
        forall|x: T| a.contains(x) <==> b.contains(x),
{
    assert forall|x: T| a.contains(x) <==> b.contains(x) by {
        if a.contains(x) {
            let k = choose|k: int| 0 <= k < a.len() && a[k] == x;
            assert(perm.contains(k));
            let j = choose|j: int| 0 <= j < perm.len() && perm[j] == k;
            assert(b[j] == x);
        }
        if b.contains(x) {
            let j = choose|j: int| 0 <= j < b.len() && b[j] == x;
            assert(a[perm[j]] == x);
        }
    }
}

/// Two non-empty lists of integers with the same items have the same
/// minimum and the same maximum.
proof fn lemma_same_items_i32_extremes(a: Seq<i32>, b: Seq<i32>)
    requires
        a.len() > 0,
        b.len() > 0,
        forall|x: i32| a.contains(x) <==> b.contains(x),
    ensures
        seq_min_i32(a) == seq_min_i32(b),
        seq_max_i32(a) == seq_max_i32(b),
{
    lemma_i32_extremes_bound(a);
    lemma_i32_extremes_bound(b);
    let ja = choose|j: int| 0 <= j < b.len() && b[j] == seq_min_i32(a);
    let jb = choose|j: int| 0 <= j < a.len() && a[j] == seq_min_i32(b);
    let ka = choose|j: int| 0 <= j < b.len() && b[j] == seq_max_i32(a);
    let kb = choose|j: int| 0 <= j < a.len() && a[j] == seq_max_i32(b);
    assert(seq_min_i32(b) <= b[ja]);
    assert(seq_min_i32(a) <= a[jb]);
    assert(b[ka] <= seq_max_i32(b));
    assert(a[kb] <= seq_max_i32(a));
}

/// Two non-empty lists of strings with the same items have the same
/// lexicographic minimum and the same lexicographic maximum.
proof fn lemma_same_items_text_extremes(a: Seq<Seq<char>>, b: Seq<Seq<char>>)
    requires
        a.len() > 0,
        b.len() > 0,
        forall|x: Seq<char>| a.contains(x) <==> b.contains(x),
    ensures
        seq_min_text(a) == seq_min_text(b),
        seq_max_text(a) == seq_max_text(b),
{
    lemma_text_extremes_bound(a);
    lemma_text_extremes_bound(b);
    let ja = choose|j: int| 0 <= j < b.len() && b[j] == seq_min_text(a);
    let jb = choose|j: int| 0 <= j < a.len() && a[j] == seq_min_text(b);
    let ka = choose|j: int| 0 <= j < b.len() && b[j] == seq_max_text(a);
    let kb = choose|j: int| 0 <= j < a.len() && a[j] == seq_max_text(b);
    assert(!lex_less(b[ja], seq_min_text(b)));
    assert(!lex_less(a[jb], seq_min_text(a)));
    assert(!lex_less(seq_max_text(b), b[ka]));
    assert(!lex_less(seq_max_text(a), a[kb]));
    crate::text::lemma_lex_less_total(seq_min_text(a), seq_min_text(b));
    crate::text::lemma_lex_less_total(seq_max_text(a), seq_max_text(b));
}

/// The min (or max) entries of the first `m` columns are unchanged when the
/// rows of every column are reordered by one permutation.
proof fn lemma_extreme_entries_reordered(
    columns: Seq<Seq<Seq<char>>>,
    reordered: Seq<Seq<Seq<char>>>,
    headers: Seq<Seq<char>>,
    types: Seq<ColumnType>,
    perm: Seq<int>,
    m: nat,
    want_max: bool,
)
    requires
        m <= columns.len(),
        reordered.len() == columns.len(),
        forall|i: int| 0 <= i < columns.len() ==> (#[trigger] columns[i]).len() == perm.len(),
        is_permutation(perm, perm.len()),
        forall|i: int, j: int|
            0 <= i < columns.len() && 0 <= j < perm.len() ==> #[trigger] reordered[i][j] == columns[i][perm[j]],
        forall|i: int| 0 <= i < columns.len() ==> (#[trigger] reordered[i]).len() == perm.len(),
    ensures
        extreme_entries(columns, headers, types, m, want_max) == extreme_entries(
            reordered,
            headers,
            types,
            m,
            want_max,
        ),
    decreases m,
{
    if m > 0 {
        let i = m - 1;
        lemma_extreme_entries_reordered(columns, reordered, headers, types, perm, (m - 1) as nat, want_max);
        let a = columns[i];
        let b = reordered[i];
        if a.len() > 0 {
            assert forall|j: int| 0 <= j < b.len() implies #[trigger] b[j] == a[perm[j]] by {
                assert(reordered[i][j] == columns[i][perm[j]]);
            }
            lemma_permuted_same_items(a, b, perm);
            lemma_same_items_text_extremes(a, b);
            let ia = int_values(a);
            let ib = int_values(b);
            assert forall|j: int| 0 <= j < ib.len() implies #[trigger] ib[j] == ia[perm[j]] by {
                assert(b[j] == a[perm[j]]);
            }
            lemma_permuted_same_items(ia, ib, perm);
            lemma_same_items_i32_extremes(ia, ib);
            assert(column_extreme(types[i], a, want_max) == column_extreme(types[i], b, want_max));
        }
    }
}

/// The statistics of a table do not depend on the order of its rows: when
/// every column of `reordered` holds the rows of the same column of
/// `columns` taken through one permutation of the row indices, exactly the
/// same statistics describe both tables.
pub proof fn lemma_stats_ignore_row_order(
    columns: Seq<Seq<Seq<char>>>,
    reordered: Seq<Seq<Seq<char>>>,
    headers: Seq<Seq<char>>,
    types: Seq<ColumnType>,
    perm: Seq<int>,
)
    requires
        columns.len() > 0,
        columns.len() >= min_len(headers.len(), types.len()),
        reordered.len() == columns.len(),
        is_permutation(perm, perm.len()),
        forall|i: int| 0 <= i < columns.len() ==> (#[trigger] columns[i]).len() == perm.len(),
        forall|i: int| 0 <= i < columns.len() ==> (#[trigger] reordered[i]).len() == perm.len(),
        forall|i: int, j: int|
            0 <= i < columns.len() && 0 <= j < perm.len() ==> #[trigger] reordered[i][j] == columns[i][perm[j]],
    ensures
        forall|stats: ColumnStats|
            #![trigger stats.describes(columns, headers, types)]
            #![trigger stats.describes(reordered, headers, types)]
            stats.describes(columns, headers, types) <==> stats.describes(reordered, headers, types),
{
    let m = min_len(headers.len(), types.len());
    lemma_extreme_entries_reordered(columns, reordered, headers, types, perm, m, false);
    lemma_extreme_entries_reordered(columns, reordered, headers, types, perm, m, true);
    assert(columns[0].len() == reordered[0].len());
}

} // verus!
