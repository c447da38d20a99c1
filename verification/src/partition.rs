//! Splitting a table's rows into consecutive partitions of equal size.

use vstd::prelude::*;

verus! {

/// Rows per partition when `total` rows are split `n` ways: `total / n`
/// rounded up.
pub open spec fn rows_per_partition(total: nat, n: nat) -> nat {
    ((total + n - 1) / (n as int)) as nat
}

/// First row of partition `q`.
pub open spec fn partition_start(total: nat, n: nat, q: nat) -> nat {
    q * rows_per_partition(total, n)
}

/// One past the last row of partition `q`.
pub open spec fn partition_end(total: nat, n: nat, q: nat) -> nat {
    let e = (q + 1) * rows_per_partition(total, n);
    if e <= total { e } else { total }
}

/// Number of partitions produced: those of the `n` slots whose first row is
/// still a row of the table.
pub open spec fn partition_count(total: nat, n: nat) -> nat {
    let rpp = rows_per_partition(total, n);
    if total == 0 {
        0
    } else {
        ((total + rpp - 1) / (rpp as int)) as nat
    }
}

/// The rows of `column` that fall into partition `q`.
pub open spec fn partition_slice<A>(column: Seq<A>, total: nat, n: nat, q: nat) -> Seq<A> {
    column.subrange(partition_start(total, n, q) as int, partition_end(total, n, q) as int)
}

/// The rows of each partition of a table, in partition order.
pub open spec fn partition_slices<A>(column: Seq<A>, n: nat) -> Seq<Seq<A>> {
    let total = column.len();
    Seq::new(partition_count(total, n), |q: int| partition_slice(column, total, n, q as nat))
}

/// Arithmetic of the split: with `n > 0` and `total > 0`, at least one row
/// per partition, no more than `total`, and `n` partitions hold every row.
proof fn lemma_rows_per_partition(total: nat, n: nat)
    requires
        n > 0,
    ensures
        total > 0 ==> rows_per_partition(total, n) >= 1,
        rows_per_partition(total, n) <= total,
        rows_per_partition(total, n) * n >= total,
        rows_per_partition(total, n) * n <= total + n - 1,
{
    let rpp = rows_per_partition(total, n);
    let x = total + n - 1;
    vstd::arithmetic::div_mod::lemma_fundamental_div_mod(x as int, n as int);
    let r = x % (n as int);
    assert(x == (n as int) * rpp + r);
    assert(0 <= r < n);
    assert(rpp * n == n * rpp) by (nonlinear_arith);
    if total > 0 {
        assert(rpp >= 1) by (nonlinear_arith)
            requires x == (n as int) * rpp + r, 0 <= r < n, x >= n, rpp >= 0;
    }
    assert(rpp <= total) by (nonlinear_arith)
        requires x == (n as int) * rpp + r, 0 <= r, n >= 1, x == total + n - 1, rpp >= 0;
    assert(rpp * n <= total + n - 1);
}

/// With `rpp` rows per slot, slot `q` starts inside the table exactly when
/// `q` is below the partition count, and the count is at most `n`.
proof fn lemma_partition_count(total: nat, n: nat, q: nat)
    requires
        n > 0,
    ensures
        partition_count(total, n) <= n,
        q < partition_count(total, n) <==> q * rows_per_partition(total, n) < total,
        partition_count(total, n) > 0 ==> partition_count(total, n) * rows_per_partition(total, n) >= total,
{
    let rpp = rows_per_partition(total, n);
    lemma_rows_per_partition(total, n);
    if total == 0 {
        assert(q * rpp >= 0) by (nonlinear_arith) requires rpp >= 0;
    } else {
        let c = partition_count(total, n);
        let x = total + rpp - 1;
        vstd::arithmetic::div_mod::lemma_fundamental_div_mod(x as int, rpp as int);
        let r = x % (rpp as int);
        assert(x == (rpp as int) * c + r);
        assert(c * rpp >= total) by (nonlinear_arith)
            requires x == (rpp as int) * c + r, r < rpp, x == total + rpp - 1;
        assert((c - 1) * rpp < total) by (nonlinear_arith)
            requires x == (rpp as int) * c + r, r >= 0, x == total + rpp - 1;
        assert(c <= n) by (nonlinear_arith)
            requires (c - 1) * rpp < total, rpp * n >= total, rpp >= 1;
        if q < c {
            assert(q * rpp < total) by (nonlinear_arith)
                requires q < c, (c - 1) * rpp < total, rpp >= 1;
        } else {
            assert(q * rpp >= total) by (nonlinear_arith)
                requires q >= c, c * rpp >= total, rpp >= 1;
        }
    }
}

/// The partitions cover the rows `0..total` in order and without gaps: the
/// first starts at row 0, each ends where the next starts, the last ends at
/// row `total`, none is empty, none holds more than `rows_per_partition`
/// rows, and there are at most `n` of them.
pub proof fn lemma_partitions_cover(total: nat, n: nat)
    requires
        n > 0,
    ensures
        partition_count(total, n) <= n,
        partition_count(total, n) == 0 <==> total == 0,
        total > 0 ==> partition_start(total, n, 0) == 0,
        total > 0 ==> partition_end(total, n, (partition_count(total, n) - 1) as nat) == total,
        forall|q: nat| q + 1 < partition_count(total, n) ==> #[trigger] partition_end(total, n, q)
            == partition_start(total, n, q + 1),
        forall|q: nat| q < partition_count(total, n) ==> {
            &&& #[trigger] partition_start(total, n, q) < partition_end(total, n, q)
            &&& partition_end(total, n, q) - partition_start(total, n, q) <= rows_per_partition(total, n)
        },
{
    let rpp = rows_per_partition(total, n);
    let c = partition_count(total, n);
    lemma_rows_per_partition(total, n);
    lemma_partition_count(total, n, 0);
    if total > 0 {
        assert(0 * rpp == 0) by (nonlinear_arith);
        lemma_partition_count(total, n, (c - 1) as nat);
        assert((c - 1 + 1) * rpp == c * rpp);
    } else {
        assert(c == 0);
    }
    assert forall|q: nat| q + 1 < c implies #[trigger] partition_end(total, n, q) == partition_start(total, n, q + 1) by {
        lemma_partition_count(total, n, q + 1);
    }
    assert forall|q: nat| q < c implies {
        &&& #[trigger] partition_start(total, n, q) < partition_end(total, n, q)
        &&& partition_end(total, n, q) - partition_start(total, n, q) <= rpp
    } by {
        lemma_partition_count(total, n, q);
        assert((q + 1) * rpp == q * rpp + rpp) by (nonlinear_arith);
    }
}

/// The first `k` partitions of a column, put together, are the rows before
/// the end of partition `k - 1`.
proof fn lemma_partition_prefix<A>(column: Seq<A>, n: nat, k: nat)
    requires
        n > 0,
        0 < k <= partition_count(column.len(), n),
    ensures
        partition_slices(column, n).take(k as int).flatten_alt() == column.subrange(
            0,
            partition_end(column.len(), n, (k - 1) as nat) as int,
        ),
    decreases k,
{
    let total = column.len();
    let parts = partition_slices(column, n);
    lemma_partitions_cover(total, n);
    let start = partition_start(total, n, (k - 1) as nat);
    let end = partition_end(total, n, (k - 1) as nat);
    assert(start < end);
    assert(end <= total);
    assert(parts.take(k as int).last() == column.subrange(start as int, end as int));
    if k == 1 {
        assert(start == 0);
        let first = parts.take(1);
        assert(first.drop_last() =~= Seq::<Seq<A>>::empty());
        assert(first.drop_last().flatten_alt() =~= Seq::<A>::empty());
        assert(first.flatten_alt() == first.drop_last().flatten_alt() + first.last());
        assert(first.flatten_alt() =~= column.subrange(0, end as int));
    } else {
        lemma_partition_prefix(column, n, (k - 1) as nat);
        assert(parts.take(k as int).drop_last() =~= parts.take(k - 1));
        assert(partition_end(total, n, (k - 2) as nat) == start);
        assert(parts.take(k as int).flatten_alt() =~= column.subrange(0, end as int));
    }
}

/// Putting the partitions of a column back together, in order, gives the
/// column: no row is lost, repeated or moved.
pub proof fn lemma_partitions_rebuild_column<A>(column: Seq<A>, n: nat)
    requires
        n > 0,
    ensures
        partition_slices(column, n).flatten() == column,
{
    let total = column.len();
    let c = partition_count(total, n);
    lemma_partitions_cover(total, n);
    let parts = partition_slices(column, n);
    parts.lemma_flatten_and_flatten_alt_are_equivalent();
    if c > 0 {
        lemma_partition_prefix(column, n, c);
        assert(parts.take(c as int) =~= parts);
        assert(column.subrange(0, total as int) =~= column);
    } else {
        assert(parts =~= Seq::<Seq<A>>::empty());
        assert(column =~= Seq::<A>::empty());
    }
}

/// The rows `start..end` of a column, copied.
fn copy_rows(column: &Vec<String>, start: usize, end: usize) -> (rows: Vec<String>)
    requires
        start <= end <= column.len(),
    ensures
        rows.deep_view() == column.deep_view().subrange(start as int, end as int),
{
    let mut rows: Vec<String> = Vec::new();
    let mut i = start;
    while i < end
        invariant
            start <= i <= end <= column.len(),
            rows.len() == i - start,
            forall|r: int| 0 <= r < rows.len() ==> #[trigger] rows[r]@ == column[start + r]@,
        decreases end - i,
    {
        rows.push(column[i].clone());
        i = i + 1;
    }
    assert(rows.deep_view() =~= column.deep_view().subrange(start as int, end as int));
    rows
}

/// One partition of a table: its slot index, its row range and its rows.
#[derive(Debug)]
pub struct Partition {
    pub index: usize,
    pub start_row: usize,
    pub end_row: usize,
    pub columns: Vec<Vec<String>>,
}

/// The table is rectangular enough to be split: every column has at least
/// as many rows as the first.
pub open spec fn splittable(columns: Seq<Vec<String>>) -> bool {
    columns.len() > 0 && forall|c: int| 0 <= c < columns.len() ==> #[trigger] columns[c].len() >= columns[0].len()
}

/// Splits the rows of a table into `num_partitions` consecutive slots of
/// `rows_per_partition` rows (the last possibly shorter), keeping the slots
/// that start inside the table.  The number of rows is that of the first
/// column.
pub fn partition_columns(columns: &Vec<Vec<String>>, num_partitions: usize) -> (parts: Vec<Partition>)
    requires
        splittable(columns@),
        num_partitions > 0,
        columns[0].len() + num_partitions <= usize::MAX,
    ensures
        ({
            let total = columns[0].len() as nat;
            let n = num_partitions as nat;
            &&& parts.len() == partition_count(total, n)
            &&& forall|q: int| 0 <= q < parts.len() ==> {
                &&& (#[trigger] parts[q]).index == q
                &&& parts[q].start_row == partition_start(total, n, q as nat)
                &&& parts[q].end_row == partition_end(total, n, q as nat)
                &&& parts[q].columns.len() == columns.len()
                &&& forall|c: int| 0 <= c < columns.len() ==> #[trigger] parts[q].columns[c].deep_view()
                    == columns[c].deep_view().subrange(parts[q].start_row as int, parts[q].end_row as int)
            }
        }),
{
    let total = columns[0].len();
    let n = num_partitions;
    let rpp = (total + n - 1) / n;
    proof {
        lemma_rows_per_partition(total as nat, n as nat);
        assert(rpp == rows_per_partition(total as nat, n as nat));
    }
    let mut parts: Vec<Partition> = Vec::new();
    let mut p: usize = 0;
    while p < n && p * rpp < total
        invariant
            splittable(columns@),
            total == columns[0].len(),
            total + n <= usize::MAX,
            n == num_partitions,
            n > 0,
            rpp == rows_per_partition(total as nat, n as nat),
            rpp <= total,
            rpp * n <= total + n - 1,
            p <= n,
            p * rpp <= rpp * n,
            parts.len() == p,
            forall|q: int| 0 <= q < p ==> #[trigger] (q * rpp) < total,
            forall|q: int| 0 <= q < parts.len() ==> {
                &&& (#[trigger] parts[q]).index == q
                &&& parts[q].start_row == partition_start(total as nat, n as nat, q as nat)
                &&& parts[q].end_row == partition_end(total as nat, n as nat, q as nat)
                &&& parts[q].columns.len() == columns.len()
                &&& forall|c: int| 0 <= c < columns.len() ==> #[trigger] parts[q].columns[c].deep_view()
                    == columns[c].deep_view().subrange(parts[q].start_row as int, parts[q].end_row as int)
            },
        decreases n - p,
    {
        let start = p * rpp;
        proof {
            assert((p + 1) * rpp == p * rpp + rpp) by (nonlinear_arith);
            assert((p + 1) * rpp <= rpp * n) by (nonlinear_arith)
                requires p < n, rpp >= 0;
        }
        let next = (p + 1) * rpp;
        let end = if next <= total { next } else { total };
        let mut part_columns: Vec<Vec<String>> = Vec::new();
        let mut c: usize = 0;
        while c < columns.len()
            invariant
                splittable(columns@),
                total == columns[0].len(),
                start < total,
                start <= end <= total,
                c <= columns.len(),
                part_columns.len() == c,
                forall|k: int| 0 <= k < c ==> #[trigger] part_columns[k].deep_view()
                    == columns[k].deep_view().subrange(start as int, end as int),
            decreases columns.len() - c,
        {
            assert(columns[c as int].len() >= total);
            part_columns.push(copy_rows(&columns[c], start, end));
            c = c + 1;
        }
        parts.push(Partition { index: p, start_row: start, end_row: end, columns: part_columns });
        p = p + 1;
    }
    proof {
        let total_n = total as nat;
        let n_n = n as nat;
        lemma_partition_count(total_n, n_n, p as nat);
        if p > 0 {
            lemma_partition_count(total_n, n_n, (p - 1) as nat);
        }
    }
    parts
}

} // verus!
