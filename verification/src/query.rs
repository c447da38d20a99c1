//! Counting pattern matches for the query benchmark: in CSV rows, and in the
//! string columns of record batches read back from Parquet.

use vstd::prelude::*;
use crate::csv_input::{csv_body_records, parse_csv_body};
use crate::error::ConvertError;
use crate::text::{has_substring, str_contains};

verus! {

/// Rows scanned and rows (or, for batches, string columns) that matched.
#[derive(Debug, Clone, Copy, PartialEq, Eq, Structural)]
pub struct RowMatchCount {
    pub total_rows: usize,
    pub matching_rows: usize,
}

/// A record matches when one of its fields contains the pattern.
pub open spec fn record_matches(record: Seq<Seq<char>>, pattern: Seq<char>) -> bool {
    exists|f: int| 0 <= f < record.len() && has_substring(#[trigger] record[f], pattern)
}

/// Number of records that match.
pub open spec fn count_matching_records(records: Seq<Seq<Seq<char>>>, pattern: Seq<char>) -> nat
    decreases records.len(),
{
    if records.len() == 0 {
        0
    } else {
        count_matching_records(records.drop_last(), pattern) + if record_matches(records.last(), pattern) {
            1nat
        } else {
            0nat
        }
    }
}

/// Some fields matching never outnumber the records.
pub proof fn lemma_matching_records_bounded(records: Seq<Seq<Seq<char>>>, pattern: Seq<char>)
    ensures
        count_matching_records(records, pattern) <= records.len(),
    decreases records.len(),
{
    if records.len() > 0 {
        lemma_matching_records_bounded(records.drop_last(), pattern);
    }
}

/// A record matches exactly when some field, at any position, contains the
/// pattern.
pub proof fn lemma_record_matches(record: Seq<Seq<char>>, pattern: Seq<char>)
    ensures
        record_matches(record, pattern) <==> exists|f: int| 0 <= f < record.len() && has_substring(record[f], pattern),
        forall|f: int| 0 <= f < record.len() && has_substring(#[trigger] record[f], pattern) ==> record_matches(record, pattern),
{
}

/// No records match none; adding a record adds one to the count exactly
/// when some field of that record contains the pattern.
pub proof fn lemma_count_matching_records_push(records: Seq<Seq<Seq<char>>>, record: Seq<Seq<char>>, pattern: Seq<char>)
    ensures
        count_matching_records(Seq::empty(), pattern) == 0,
        count_matching_records(records.push(record), pattern) == count_matching_records(records, pattern) + if exists|f: int|
            0 <= f < record.len() && has_substring(#[trigger] record[f], pattern) {
            1nat
        } else {
            0nat
        },
{
    assert(records.push(record).drop_last() =~= records);
}

/// Whether one field of a record contains the pattern.
fn record_has_match(record: &Vec<String>, pattern: &str) -> (r: bool)
    ensures
        r == record_matches(record.deep_view(), pattern@),
        r <==> exists|f: int| 0 <= f < record.len() && has_substring(#[trigger] record[f]@, pattern@),
{
    let ghost fields = record.deep_view();
    let mut f: usize = 0;
    while f < record.len()
        invariant
            f <= record.len(),
            fields == record.deep_view(),
            forall|k: int| 0 <= k < f ==> !has_substring(#[trigger] fields[k], pattern@),
        decreases record.len() - f,
    {
        if str_contains(record[f].as_str(), pattern) {
            assert(has_substring(fields[f as int], pattern@));
            assert(has_substring(record[f as int]@, pattern@));
            return true;
        }
        f = f + 1;
    }
    assert forall|k: int| 0 <= k < record.len() implies !has_substring(#[trigger] record[k]@, pattern@) by {
        assert(fields[k] == record[k]@);
    }
    false
}

/// Scans the records of CSV bytes (the header row skipped) and counts those
/// with a field that contains `search_pattern`.
pub fn query_csv(csv_data: &[u8], search_pattern: &str) -> (r: Result<RowMatchCount, ConvertError>)
    ensures
        r is Ok <==> csv_body_records(csv_data@) is Some,
        r matches Ok(count) ==> {
            let records = csv_body_records(csv_data@).unwrap();
            &&& count.total_rows == records.len()
            &&& count.matching_rows == count_matching_records(records, search_pattern@)
            &&& count.matching_rows <= count.total_rows
        },
        r matches Err(e) ==> e is Csv,
{
    let records = match parse_csv_body(csv_data) {
        Ok(t) => t,
        Err(e) => return Err(ConvertError::Csv(e)),
    };
    let ghost all = records.deep_view();
    let mut total_rows: usize = 0;
    let mut matching_rows: usize = 0;
    while total_rows < records.len()
        invariant
            total_rows <= records.len(),
            all == records.deep_view(),
            matching_rows == count_matching_records(all.take(total_rows as int), search_pattern@),
            matching_rows <= total_rows,
        decreases records.len() - total_rows,
    {
        proof {
            assert(all.take(total_rows + 1).drop_last() =~= all.take(total_rows as int));
            assert(all.take(total_rows + 1).last() == records[total_rows as int].deep_view());
        }
        if record_has_match(&records[total_rows], search_pattern) {
            matching_rows = matching_rows + 1;
        }
        total_rows = total_rows + 1;
    }
    assert(all.take(records.len() as int) =~= all);
    Ok(RowMatchCount { total_rows, matching_rows })
}

/// A column of a record batch: string values (some null), or a column of
/// another type, which the search skips.
#[derive(Debug)]
pub enum QueryColumn {
    Text(Vec<Option<String>>),
    Other,
}

/// A record batch: its row count and its columns.
#[derive(Debug)]
pub struct QueryBatch {
    pub num_rows: usize,
    pub columns: Vec<QueryColumn>,
}

/// A value that is present and contains the pattern.
pub open spec fn value_matches(value: Option<String>, pattern: Seq<char>) -> bool {
    value matches Some(s) && has_substring(s@, pattern)
}

/// Some value among the first `num_rows` matches.
pub open spec fn column_has_match(values: Seq<Option<String>>, pattern: Seq<char>, num_rows: nat) -> bool {
    exists|r: int| 0 <= r < num_rows && value_matches(#[trigger] values[r], pattern)
}

/// Every string column of the batch holds at least `num_rows` values.
pub open spec fn batch_valid(batch: QueryBatch) -> bool {
    forall|c: int| 0 <= c < batch.columns.len() ==> (#[trigger] batch.columns[c] matches QueryColumn::Text(v)
        ==> batch.num_rows <= v.len())
}

/// Number of string columns among the first `k` with a matching value.
pub open spec fn matching_columns(columns: Seq<QueryColumn>, pattern: Seq<char>, num_rows: nat, k: nat) -> nat
    decreases k,
{
    if k == 0 {
        0
    } else {
        matching_columns(columns, pattern, num_rows, (k - 1) as nat) + match columns[k - 1] {
            QueryColumn::Text(v) => if column_has_match(v@, pattern, num_rows) { 1nat } else { 0nat },
            QueryColumn::Other => 0nat,
        }
    }
}

/// What `search_in_batch` counts for a batch.
pub open spec fn batch_match_count(batch: QueryBatch, pattern: Seq<char>) -> nat {
    matching_columns(batch.columns@, pattern, batch.num_rows as nat, batch.columns.len() as nat)
}

/// A batch never counts more than its number of columns.
pub proof fn lemma_matching_columns_bounded(columns: Seq<QueryColumn>, pattern: Seq<char>, num_rows: nat, k: nat)
    ensures
        matching_columns(columns, pattern, num_rows, k) <= k,
    decreases k,
{
    if k > 0 {
        lemma_matching_columns_bounded(columns, pattern, num_rows, (k - 1) as nat);
    }
}

/// A column has a match exactly when some value among the first `num_rows`,
/// at any row, is present and contains the pattern.
pub proof fn lemma_column_has_match(values: Seq<Option<String>>, pattern: Seq<char>, num_rows: nat)
    ensures
        column_has_match(values, pattern, num_rows) <==> exists|r: int|
            0 <= r < num_rows && (#[trigger] values[r]) is Some && has_substring(values[r]->0@, pattern),
{
}

/// Each further column adds one to a batch's count exactly when it is a
/// string column with a present value containing the pattern among the
/// first `num_rows` rows.
pub proof fn lemma_matching_columns_step(columns: Seq<QueryColumn>, pattern: Seq<char>, num_rows: nat, k: nat)
    requires
        k < columns.len(),
    ensures
        matching_columns(columns, pattern, num_rows, 0) == 0,
        matching_columns(columns, pattern, num_rows, k + 1) == matching_columns(columns, pattern, num_rows, k)
            + match columns[k as int] {
            QueryColumn::Text(v) => if exists|r: int|
                0 <= r < num_rows && (#[trigger] v@[r]) is Some && has_substring(v@[r]->0@, pattern) {
                1nat
            } else {
                0nat
            },
            QueryColumn::Other => 0nat,
        },
{
}

/// 1 when one of the first `num_rows` values is present and contains the
/// pattern, 0 otherwise: the scan stops at the first match.
pub fn count_matches_in_column(values: &Vec<Option<String>>, search_pattern: &str, num_rows: usize) -> (r: usize)
    requires
        num_rows <= values.len(),
    ensures
        r == if column_has_match(values@, search_pattern@, num_rows as nat) { 1usize } else { 0usize },
        r <= 1,
        r == 1 <==> exists|row: int|
            0 <= row < num_rows && (#[trigger] values@[row]) is Some && has_substring(values@[row]->0@, search_pattern@),
{
    let mut row: usize = 0;
    while row < num_rows
        invariant
            row <= num_rows <= values.len(),
            forall|k: int| 0 <= k < row ==> !value_matches(#[trigger] values@[k], search_pattern@),
        decreases num_rows - row,
    {
        match &values[row] {
            Some(s) => {
                if str_contains(s.as_str(), search_pattern) {
                    assert(value_matches(values@[row as int], search_pattern@));
                    return 1;
                }
            },
            None => {},
        }
        row = row + 1;
    }
    assert forall|k: int| 0 <= k < num_rows implies !((#[trigger] values@[k]) is Some && has_substring(
        values@[k]->0@,
        search_pattern@,
    )) by {
        assert(!value_matches(values@[k], search_pattern@));
    }
    0
}

/// Sum over the string columns of a batch of `count_matches_in_column`:
/// the number of string columns holding a match.
pub fn search_in_batch(batch: &QueryBatch, search_pattern: &str) -> (r: usize)
    requires
        batch_valid(*batch),
    ensures
        r == batch_match_count(*batch, search_pattern@),
        r <= batch.columns.len(),
{
    let mut matching: usize = 0;
    let mut c: usize = 0;
    while c < batch.columns.len()
        invariant
            c <= batch.columns.len(),
            batch_valid(*batch),
            matching == matching_columns(batch.columns@, search_pattern@, batch.num_rows as nat, c as nat),
            matching <= c,
        decreases batch.columns.len() - c,
    {
        match &batch.columns[c] {
            QueryColumn::Text(values) => {
                assert(batch.num_rows <= values.len());
                matching = matching + count_matches_in_column(values, search_pattern, batch.num_rows);
            },
            QueryColumn::Other => {},
        }
        c = c + 1;
    }
    matching
}

/// Rows of the first `k` batches.
pub open spec fn rows_of_batches(batches: Seq<QueryBatch>, k: nat) -> nat
    decreases k,
{
    if k == 0 { 0 } else { rows_of_batches(batches, (k - 1) as nat) + batches[k - 1].num_rows as nat }
}

/// Matches counted in the first `k` batches.
pub open spec fn matches_of_batches(batches: Seq<QueryBatch>, pattern: Seq<char>, k: nat) -> nat
    decreases k,
{
    if k == 0 {
        0
    } else {
        matches_of_batches(batches, pattern, (k - 1) as nat) + batch_match_count(batches[k - 1], pattern)
    }
}

/// No batches have no rows and no matches; each further batch adds its row
/// count and the number of its string columns holding a match.
pub proof fn lemma_batch_sums_step(batches: Seq<QueryBatch>, pattern: Seq<char>, k: nat)
    requires
        k < batches.len(),
    ensures
        rows_of_batches(batches, 0) == 0,
        matches_of_batches(batches, pattern, 0) == 0,
        rows_of_batches(batches, k + 1) == rows_of_batches(batches, k) + batches[k as int].num_rows,
        matches_of_batches(batches, pattern, k + 1) == matches_of_batches(batches, pattern, k) + matching_columns(
            batches[k as int].columns@,
            pattern,
            batches[k as int].num_rows as nat,
            batches[k as int].columns.len() as nat,
        ),
{
}

/// Sums over a prefix of the batches grow with the prefix.
proof fn lemma_batch_sums_monotone(batches: Seq<QueryBatch>, pattern: Seq<char>, j: nat, k: nat)
    requires
        j <= k,
    ensures
        rows_of_batches(batches, j) <= rows_of_batches(batches, k),
        matches_of_batches(batches, pattern, j) <= matches_of_batches(batches, pattern, k),
    decreases k,
{
    if j < k {
        lemma_batch_sums_monotone(batches, pattern, j, (k - 1) as nat);
    }
}

/// Scans record batches read back from Parquet: the rows of all batches,
/// and the sum of `search_in_batch` over them.
pub fn query_batches(batches: &Vec<QueryBatch>, search_pattern: &str) -> (r: RowMatchCount)
    requires
        forall|b: int| 0 <= b < batches.len() ==> batch_valid(#[trigger] batches[b]),
        rows_of_batches(batches@, batches.len() as nat) <= usize::MAX,
        matches_of_batches(batches@, search_pattern@, batches.len() as nat) <= usize::MAX,
    ensures
        r.total_rows == rows_of_batches(batches@, batches.len() as nat),
        r.matching_rows == matches_of_batches(batches@, search_pattern@, batches.len() as nat),
{
    let mut total_rows: usize = 0;
    let mut matching_rows: usize = 0;
    let mut b: usize = 0;
    while b < batches.len()
        invariant
            b <= batches.len(),
            forall|k: int| 0 <= k < batches.len() ==> batch_valid(#[trigger] batches[k]),
            rows_of_batches(batches@, batches.len() as nat) <= usize::MAX,
            matches_of_batches(batches@, search_pattern@, batches.len() as nat) <= usize::MAX,
            total_rows == rows_of_batches(batches@, b as nat),
            matching_rows == matches_of_batches(batches@, search_pattern@, b as nat),
        decreases batches.len() - b,
    {
        proof {
            lemma_batch_sums_monotone(batches@, search_pattern@, (b + 1) as nat, batches.len() as nat);
        }
        let batch = &batches[b];
        total_rows = total_rows + batch.num_rows;
        matching_rows = matching_rows + search_in_batch(batch, search_pattern);
        b = b + 1;
    }
    RowMatchCount { total_rows, matching_rows }
}

} // verus!
