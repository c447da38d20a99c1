//! Planning the outputs of a conversion: the single-file table, the
//! partitioned tables and the Delta Lake data files, computed from CSV bytes
//! before anything is written.

use vstd::prelude::*;
use crate::csv_input::{csv_table, read_csv_generic, transpose};
use crate::error::ConvertError;
use crate::partition::{
    partition_columns, partition_count, partition_end, partition_start, splittable,
};
use crate::table::{
    create_arrow_arrays, create_schema, infer_column_types, inferred_type, min_len, typed_column_matches,
    ColumnType, TableBatch,
};
use crate::text::{zero_pad, zero_padded};

verus! {

/// Every column has at least one row.
pub open spec fn no_empty_column(columns: Seq<Vec<String>>) -> bool {
    forall|c: int| 0 <= c < columns.len() ==> #[trigger] columns[c].len() > 0
}

/// The column types inferred from the headers and the first row of a
/// table, up to the shorter of the two.
pub open spec fn table_types(columns: Seq<Seq<Seq<char>>>, headers: Seq<Seq<char>>) -> Seq<ColumnType> {
    Seq::new(min_len(headers.len(), columns.len()), |i: int| inferred_type(headers[i], columns[i][0]))
}

/// `batch` holds the given columns under the given headers and types: one
/// non-nullable field per header and type, and the typed data of each
/// column.
pub open spec fn batch_matches(
    batch: TableBatch,
    columns: Seq<Seq<Seq<char>>>,
    headers: Seq<Seq<char>>,
    types: Seq<ColumnType>,
) -> bool {
    &&& batch.schema.len() == min_len(headers.len(), types.len())
    &&& forall|i: int| 0 <= i < batch.schema.len() ==> {
        &&& (#[trigger] batch.schema[i]).name@ == headers[i]
        &&& batch.schema[i].data_type == types[i]
        &&& !batch.schema[i].nullable
    }
    &&& batch.columns.len() == min_len(columns.len(), types.len())
    &&& forall|i: int| 0 <= i < batch.columns.len() ==> typed_column_matches(
        types[i],
        columns[i],
        #[trigger] batch.columns[i],
    )
}

/// A batch built from a table whose columns all have `total` rows is well
/// formed: each column matches its field's type and has `total` values.
pub proof fn lemma_batch_well_formed(
    batch: TableBatch,
    columns: Seq<Seq<Seq<char>>>,
    headers: Seq<Seq<char>>,
    total: nat,
)
    requires
        headers.len() == columns.len(),
        forall|c: int| 0 <= c < columns.len() ==> (#[trigger] columns[c]).len() == total,
        batch_matches(batch, columns, headers, table_types(columns, headers)),
    ensures
        batch.well_formed(total),
{
    let types = table_types(columns, headers);
    assert forall|i: int| 0 <= i < batch.columns.len() implies {
        &&& #[trigger] batch.columns[i].spec_type() == batch.schema[i].data_type
        &&& batch.columns[i].spec_len() == total
        &&& !batch.schema[i].nullable
    } by {
        assert(typed_column_matches(types[i], columns[i], batch.columns[i]));
        assert(columns[i].len() == total);
    }
}

/// The first value of every column.
fn first_row(columns: &Vec<Vec<String>>) -> (row: Vec<String>)
    requires
        no_empty_column(columns@),
    ensures
        row.len() == columns.len(),
        forall|c: int| 0 <= c < columns.len() ==> #[trigger] row[c]@ == columns[c][0]@,
{
    let mut row: Vec<String> = Vec::new();
    let mut c: usize = 0;
    while c < columns.len()
        invariant
            c <= columns.len(),
            no_empty_column(columns@),
            row.len() == c,
            forall|k: int| 0 <= k < c ==> #[trigger] row[k]@ == columns[k][0]@,
        decreases columns.len() - c,
    {
        assert(columns[c as int].len() > 0);
        row.push(columns[c][0].clone());
        c = c + 1;
    }
    row
}

/// The column types of a table, inferred from its headers and first row.
pub fn table_column_types(columns: &Vec<Vec<String>>, headers: &Vec<String>) -> (types: Vec<ColumnType>)
    requires
        no_empty_column(columns@),
    ensures
        types@ == table_types(columns.deep_view(), headers.deep_view()),
{
    let row = first_row(columns);
    let types = infer_column_types(headers, &row);
    let ghost cols = columns.deep_view();
    let ghost hdrs = headers.deep_view();
    assert forall|i: int| 0 <= i < types.len() implies #[trigger] types@[i] == table_types(cols, hdrs)[i] by {
        assert(cols[i] == columns[i].deep_view());
        assert(columns[i].len() > 0);
        assert(cols[i][0] == columns[i][0]@);
        assert(hdrs[i] == headers[i]@);
    }
    assert(types@ =~= table_types(cols, hdrs));
    types
}

/// The batch of a table's columns under the given headers and types.
pub fn build_batch(columns: &Vec<Vec<String>>, headers: &Vec<String>, column_types: &Vec<ColumnType>) -> (batch: TableBatch)
    ensures
        batch_matches(batch, columns.deep_view(), headers.deep_view(), column_types@),
{
    let schema = create_schema(headers, column_types);
    let arrays = create_arrow_arrays(columns, column_types);
    TableBatch { schema, columns: arrays }
}

/// The table written as a single Parquet file: types inferred from the
/// first row, every column typed accordingly.  A table without columns has
/// nothing to write.
pub fn single_parquet_batch(columns: &Vec<Vec<String>>, headers: &Vec<String>) -> (r: Result<TableBatch, ConvertError>)
    requires
        no_empty_column(columns@),
    ensures
        columns.len() == 0 <==> r matches Err(ConvertError::NoDataToWrite),
        columns.len() > 0 ==> (r matches Ok(batch) && batch_matches(
            batch,
            columns.deep_view(),
            headers.deep_view(),
            table_types(columns.deep_view(), headers.deep_view()),
        )),
{
    if columns.len() == 0 {
        return Err(ConvertError::NoDataToWrite);
    }
    let types = table_column_types(columns, headers);
    Ok(build_batch(columns, headers, &types))
}

/// One partition of a table ready to be written: its slot index, its row
/// range, the name of its data file, its rows and its typed batch.
#[derive(Debug)]
pub struct PartitionBatch {
    pub index: usize,
    pub start_row: usize,
    pub end_row: usize,
    pub file_name: String,
    pub columns: Vec<Vec<String>>,
    pub batch: TableBatch,
}

/// Name of the data file of partition `index` of a partitioned Parquet
/// output: `part-` and the index in four zero-padded digits.
pub open spec fn parquet_part_name(index: nat) -> Seq<char> {
    "part-"@ + zero_padded(index, 4) + ".parquet"@
}

/// Name of the data file of partition `index` of a partitioned Delta table.
pub open spec fn delta_part_name(index: nat) -> Seq<char> {
    "part-"@ + zero_padded(index, 4) + "-data.snappy.parquet"@
}

/// Name of the data file of partition `index`.
pub fn partition_file_name(index: usize, delta: bool) -> (s: String)
    ensures
        s@ == if delta { delta_part_name(index as nat) } else { parquet_part_name(index as nat) },
{
    let name = String::from_str("part-").concat(zero_pad(index as u64, 4).as_str());
    if delta {
        name.concat("-data.snappy.parquet")
    } else {
        name.concat(".parquet")
    }
}

/// Name of the single data file of an unpartitioned Delta table.
pub open spec fn delta_single_file_name() -> Seq<char> {
    "part-00000-data.snappy.parquet"@
}

/// Name of the single data file of an unpartitioned Delta table.
pub fn delta_data_file_name() -> (s: String)
    ensures
        s@ == delta_single_file_name(),
{
    String::from_str("part-00000-data.snappy.parquet")
}

/// The partitions of a table of `total` rows split `n` ways: slot index,
/// row range, file name, rows of each column, and the batch of those rows
/// under the headers and the given types.
pub open spec fn partition_batches_match(
    parts: Seq<PartitionBatch>,
    columns: Seq<Seq<Seq<char>>>,
    headers: Seq<Seq<char>>,
    types: Seq<ColumnType>,
    total: nat,
    n: nat,
    delta: bool,
) -> bool {
    &&& parts.len() == partition_count(total, n)
    &&& forall|q: int| 0 <= q < parts.len() ==> {
        &&& (#[trigger] parts[q]).index == q
        &&& parts[q].start_row == partition_start(total, n, q as nat)
        &&& parts[q].end_row == partition_end(total, n, q as nat)
        &&& parts[q].file_name@ == if delta { delta_part_name(q as nat) } else { parquet_part_name(q as nat) }
        &&& parts[q].columns.len() == columns.len()
        &&& forall|c: int| 0 <= c < columns.len() ==> #[trigger] parts[q].columns[c].deep_view()
            == columns[c].subrange(parts[q].start_row as int, parts[q].end_row as int)
        &&& batch_matches(parts[q].batch, parts[q].columns.deep_view(), headers, types)
    }
}

/// The rows of column `c` in each of the partitions, put back together in
/// partition order, are exactly column `c` of the table: the partitioned
/// output holds every row of the single output once, in the same order.
pub proof fn lemma_partition_batches_rebuild(
    parts: Seq<PartitionBatch>,
    columns: Seq<Seq<Seq<char>>>,
    headers: Seq<Seq<char>>,
    types: Seq<ColumnType>,
    n: nat,
    delta: bool,
    c: int,
)
    requires
        n > 0,
        0 <= c < columns.len(),
        columns[c].len() == columns[0].len(),
        partition_batches_match(parts, columns, headers, types, columns[0].len(), n, delta),
    ensures
        Seq::new(parts.len(), |q: int| parts[q].columns[c].deep_view()).flatten() == columns[c],
{
    let total = columns[0].len();
    let pieces = Seq::new(parts.len(), |q: int| parts[q].columns[c].deep_view());
    crate::partition::lemma_partitions_rebuild_column(columns[c], n);
    assert(pieces =~= crate::partition::partition_slices(columns[c], n));
}

/// Each partition batch of a rectangular table is well formed: every column
/// of its field's type, with as many values as the partition has rows.
pub proof fn lemma_partition_batches_well_formed(
    parts: Seq<PartitionBatch>,
    columns: Seq<Seq<Seq<char>>>,
    headers: Seq<Seq<char>>,
    n: nat,
    delta: bool,
    q: int,
)
    requires
        n > 0,
        0 <= q < parts.len(),
        headers.len() == columns.len(),
        columns.len() > 0,
        rectangular(columns),
        partition_batches_match(parts, columns, headers, table_types(columns, headers), columns[0].len(), n, delta),
    ensures
        parts[q].batch.well_formed((parts[q].end_row - parts[q].start_row) as nat),
{
    let total = columns[0].len();
    crate::partition::lemma_partitions_cover(total, n);
    let part = parts[q];
    let rows = (part.end_row - part.start_row) as nat;
    let part_columns = part.columns.deep_view();
    assert(part.start_row == partition_start(total, n, q as nat));
    assert(part.end_row == partition_end(total, n, q as nat));
    assert(part.start_row < part.end_row <= total);
    assert forall|c: int| 0 <= c < part_columns.len() implies (#[trigger] part_columns[c]).len() == rows by {
        assert(part_columns[c] == part.columns[c].deep_view());
        assert(columns[c].len() == total);
    }
    let types = table_types(columns, headers);
    assert forall|i: int| 0 <= i < part.batch.columns.len() implies {
        &&& #[trigger] part.batch.columns[i].spec_type() == part.batch.schema[i].data_type
        &&& part.batch.columns[i].spec_len() == rows
        &&& !part.batch.schema[i].nullable
    } by {
        assert(typed_column_matches(types[i], part_columns[i], part.batch.columns[i]));
        assert(part_columns[i].len() == rows);
    }
}

/// Splitting is possible: at least one slot, and the rows plus the slots fit
/// in `usize`.
pub open spec fn split_fits(total: nat, n: nat) -> bool {
    n > 0 && total + n <= usize::MAX
}

/// The partitions of a table: rows split into `num_partitions` slots, each
/// kept slot typed with the types inferred from the whole table's first
/// row.  A table without columns has nothing to write.
pub fn partitioned_parquet_batches(
    columns: &Vec<Vec<String>>,
    headers: &Vec<String>,
    num_partitions: usize,
    delta: bool,
) -> (r: Result<Vec<PartitionBatch>, ConvertError>)
    requires
        no_empty_column(columns@),
        columns.len() > 0 ==> splittable(columns@) && split_fits(columns[0].len() as nat, num_partitions as nat),
    ensures
        columns.len() == 0 <==> r matches Err(ConvertError::NoDataToWrite),
        columns.len() > 0 ==> (r matches Ok(parts) && partition_batches_match(
            parts@,
            columns.deep_view(),
            headers.deep_view(),
            table_types(columns.deep_view(), headers.deep_view()),
            columns[0].len() as nat,
            num_partitions as nat,
            delta,
        )),
{
    if columns.len() == 0 {
        return Err(ConvertError::NoDataToWrite);
    }
    let types = table_column_types(columns, headers);
    let mut slots = partition_columns(columns, num_partitions);
    let ghost total = columns[0].len() as nat;
    let ghost n = num_partitions as nat;
    let ghost cols = columns.deep_view();
    let ghost slots_view = slots@;
    let mut parts: Vec<PartitionBatch> = Vec::new();
    let count = slots.len();
    let mut q: usize = 0;
    while q < count
        invariant
            q <= count,
            count == slots_view.len(),
            count == partition_count(total, n),
            slots@ == slots_view.subrange(q as int, count as int),
            cols == columns.deep_view(),
            types@ == table_types(cols, headers.deep_view()),
            forall|k: int| 0 <= k < slots_view.len() ==> {
                &&& (#[trigger] slots_view[k]).index == k
                &&& slots_view[k].start_row == partition_start(total, n, k as nat)
                &&& slots_view[k].end_row == partition_end(total, n, k as nat)
                &&& slots_view[k].columns.len() == columns.len()
                &&& forall|c: int| 0 <= c < columns.len() ==> #[trigger] slots_view[k].columns[c].deep_view()
                    == columns[c].deep_view().subrange(slots_view[k].start_row as int, slots_view[k].end_row as int)
            },
            parts.len() == q,
            forall|k: int| 0 <= k < q ==> {
                &&& (#[trigger] parts[k]).index == k
                &&& parts[k].start_row == partition_start(total, n, k as nat)
                &&& parts[k].end_row == partition_end(total, n, k as nat)
                &&& parts[k].file_name@ == if delta { delta_part_name(k as nat) } else { parquet_part_name(k as nat) }
                &&& parts[k].columns.len() == cols.len()
                &&& forall|c: int| 0 <= c < cols.len() ==> #[trigger] parts[k].columns[c].deep_view()
                    == cols[c].subrange(parts[k].start_row as int, parts[k].end_row as int)
                &&& batch_matches(parts[k].batch, parts[k].columns.deep_view(), headers.deep_view(), types@)
            },
        decreases count - q,
    {
        let slot = slots.remove(0);
        assert(slot == slots_view[q as int]);
        let batch = build_batch(&slot.columns, headers, &types);
        let file_name = partition_file_name(slot.index, delta);
        assert forall|c: int| 0 <= c < cols.len() implies #[trigger] slot.columns[c].deep_view()
            == cols[c].subrange(slot.start_row as int, slot.end_row as int) by {
            assert(cols[c] == columns[c].deep_view());
        }
        parts.push(
            PartitionBatch {
                index: slot.index,
                start_row: slot.start_row,
                end_row: slot.end_row,
                file_name,
                columns: slot.columns,
                batch,
            },
        );
        q = q + 1;
    }
    Ok(parts)
}

/// Every column of the table has as many rows as the first.
pub open spec fn rectangular(columns: Seq<Seq<Seq<char>>>) -> bool {
    forall|c: int| 0 <= c < columns.len() ==> #[trigger] columns[c].len() == columns[0].len()
}

/// The two outputs of a CSV to Parquet conversion.
#[derive(Debug)]
pub struct ParquetConversion {
    pub total_rows: usize,
    pub single: TableBatch,
    pub partitions: Vec<PartitionBatch>,
}

/// The conversion of CSV bytes into a single Parquet table and a partitioned
/// one: the CSV error if the bytes do not parse, "no data" for a table
/// without columns, and otherwise the single batch and the partitions.
/// `None` when the table has columns but no rows, when there are no
/// partitions to split into, or when the rows plus the partitions overflow
/// `usize`: inputs on which the conversion cannot proceed.
pub fn convert_csv_to_parquet(csv_data: &[u8], num_partitions: usize) -> (r: Option<Result<ParquetConversion, ConvertError>>)
    ensures
        csv_table(csv_data@) is None ==> (r matches Some(Err(e)) && e is Csv),
        csv_table(csv_data@) matches Some(table) ==> {
            let headers = table.0;
            let columns = transpose(table.1, headers.len());
            let total = table.1.len();
            if headers.len() == 0 {
                (r matches Some(Err(e)) && e is NoDataToWrite)
            } else if total == 0 || !split_fits(total, num_partitions as nat) {
                r is None
            } else {
                (r matches Some(Ok(conv)) && {
                    &&& conv.total_rows == total
                    &&& batch_matches(conv.single, columns, headers, table_types(columns, headers))
                    &&& conv.single.well_formed(total)
                    &&& partition_batches_match(
                        conv.partitions@,
                        columns,
                        headers,
                        table_types(columns, headers),
                        total,
                        num_partitions as nat,
                        false,
                    )
                })
            }
        },
{
    let (columns, headers) = match read_nonempty_table(csv_data, ConvertError::NoDataToWrite) {
        Some(Ok(t)) => t,
        Some(Err(e)) => return Some(Err(e)),
        None => return None,
    };
    let total = columns[0].len();
    if !(num_partitions > 0 && total <= usize::MAX - num_partitions) {
        return None;
    }
    let ghost cols = columns.deep_view();
    let single = match single_parquet_batch(&columns, &headers) {
        Ok(b) => b,
        Err(e) => return Some(Err(e)),
    };
    proof {
        lemma_batch_well_formed(single, cols, headers.deep_view(), total as nat);
    }
    let partitions = match partitioned_parquet_batches(&columns, &headers, num_partitions, false) {
        Ok(p) => p,
        Err(e) => return Some(Err(e)),
    };
    Some(Ok(ParquetConversion { total_rows: total, single, partitions }))
}

/// A file name has the extension `parquet`: it ends with `.parquet` and
/// something comes before that dot.
pub open spec fn is_parquet_file_name(name: Seq<char>) -> bool {
    name.len() > 8 && name.subrange(name.len() - 8, name.len() as int) == ".parquet"@
}

/// Whether a file name has the extension `parquet`.
pub fn has_parquet_extension(name: &str) -> (r: bool)
    ensures
        r == is_parquet_file_name(name@),
{
    let len = name.unicode_len();
    if len <= 8 {
        return false;
    }
    let tail = String::from_str(name.substring_char(len - 8, len));
    let dot_parquet = String::from_str(".parquet");
    tail == dot_parquet
}

/// What a Delta Lake conversion writes as one data file: the table, its
/// inferred types, the data file name and the batch to encode.
#[derive(Debug)]
pub struct DeltaTablePlan {
    pub columns: Vec<Vec<String>>,
    pub headers: Vec<String>,
    pub column_types: Vec<ColumnType>,
    pub total_rows: usize,
    pub data_file_name: String,
    pub batch: TableBatch,
}

/// What a partitioned Delta Lake conversion writes: the headers, the
/// inferred types and one data file per partition.
#[derive(Debug)]
pub struct DeltaPartitionedPlan {
    pub headers: Vec<String>,
    pub column_types: Vec<ColumnType>,
    pub total_rows: usize,
    pub partitions: Vec<PartitionBatch>,
}

/// Reads CSV bytes and checks that the table has columns (`no_data`
/// otherwise) and rows (`None` otherwise).
fn read_nonempty_table(csv_data: &[u8], no_data: ConvertError) -> (r: Option<Result<(Vec<Vec<String>>, Vec<String>), ConvertError>>)
    ensures
        csv_table(csv_data@) is None ==> (r matches Some(Err(e)) && e is Csv),
        csv_table(csv_data@) matches Some(table) ==> {
            let headers = table.0;
            let total = table.1.len();
            if headers.len() == 0 {
                r == Some(Err::<(Vec<Vec<String>>, Vec<String>), ConvertError>(no_data))
            } else if total == 0 {
                r is None
            } else {
                (r matches Some(Ok((columns, hdrs))) && {
                    &&& hdrs.deep_view() == headers
                    &&& columns.deep_view() == transpose(table.1, headers.len())
                    &&& columns.len() == headers.len()
                    &&& columns[0].len() == total
                    &&& no_empty_column(columns@)
                    &&& splittable(columns@)
                    &&& rectangular(columns.deep_view())
                })
            }
        },
{
    let (columns, headers) = match read_csv_generic(csv_data) {
        Ok(t) => t,
        Err(e) => return Some(Err(e)),
    };
    let ghost table = csv_table(csv_data@).unwrap();
    let ghost cols = columns.deep_view();
    proof {
        assert(cols.len() == columns.len());
        assert forall|c: int| 0 <= c < cols.len() implies #[trigger] cols[c].len() == table.1.len() by {
            assert(cols[c] == crate::csv_input::column_of(table.1, c));
        }
    }
    if columns.len() == 0 {
        return Some(Err(no_data));
    }
    let total = columns[0].len();
    assert(cols[0].len() == total);
    if total == 0 {
        return None;
    }
    proof {
        assert forall|c: int| 0 <= c < columns.len() implies #[trigger] columns[c].len() > 0 by {
            assert(cols[c].len() == columns[c].len());
        }
        assert forall|c: int| 0 <= c < columns.len() implies #[trigger] columns[c].len() >= columns[0].len() by {
            assert(cols[c].len() == columns[c].len());
        }
    }
    Some(Ok((columns, headers)))
}

/// The plan of a Delta Lake conversion of CSV bytes into one data file: the
/// CSV error if the bytes do not parse, "no data" for a table without
/// columns, and otherwise the table, its types, the data file name and its
/// batch.  `None` when the table has columns but no rows, where the
/// conversion cannot proceed.
pub fn convert_csv_to_delta(csv_data: &[u8]) -> (r: Option<Result<DeltaTablePlan, ConvertError>>)
    ensures
        csv_table(csv_data@) is None ==> (r matches Some(Err(e)) && e is Csv),
        csv_table(csv_data@) matches Some(table) ==> {
            let headers = table.0;
            let columns = transpose(table.1, headers.len());
            let total = table.1.len();
            if headers.len() == 0 {
                (r matches Some(Err(e)) && e is NoDataToConvert)
            } else if total == 0 {
                r is None
            } else {
                (r matches Some(Ok(plan)) && {
                    &&& plan.columns.deep_view() == columns
                    &&& plan.headers.deep_view() == headers
                    &&& plan.column_types@ == table_types(columns, headers)
                    &&& plan.total_rows == total
                    &&& plan.data_file_name@ == delta_single_file_name()
                    &&& batch_matches(plan.batch, columns, headers, table_types(columns, headers))
                    &&& plan.batch.well_formed(total)
                })
            }
        },
{
    let (columns, headers) = match read_nonempty_table(csv_data, ConvertError::NoDataToConvert) {
        Some(Ok(t)) => t,
        Some(Err(e)) => return Some(Err(e)),
        None => return None,
    };
    let total_rows = columns[0].len();
    let column_types = table_column_types(&columns, &headers);
    let batch = build_batch(&columns, &headers, &column_types);
    proof {
        lemma_batch_well_formed(batch, columns.deep_view(), headers.deep_view(), total_rows as nat);
    }
    Some(Ok(DeltaTablePlan { columns, headers, column_types, total_rows, data_file_name: delta_data_file_name(), batch }))
}

/// The plan of a partitioned Delta Lake conversion of CSV bytes: the CSV
/// error if the bytes do not parse, "no data" for a table without columns,
/// and otherwise the headers, the types and the partitions.  `None` when the
/// table has columns but no rows, when there are no partitions to split
/// into, or when the rows plus the partitions overflow `usize`.
pub fn convert_csv_to_delta_partitioned(csv_data: &[u8], num_partitions: usize) -> (r: Option<Result<DeltaPartitionedPlan, ConvertError>>)
    ensures
        csv_table(csv_data@) is None ==> (r matches Some(Err(e)) && e is Csv),
        csv_table(csv_data@) matches Some(table) ==> {
            let headers = table.0;
            let columns = transpose(table.1, headers.len());
            let total = table.1.len();
            if headers.len() == 0 {
                (r matches Some(Err(e)) && e is NoDataToConvert)
            } else if total == 0 || !split_fits(total, num_partitions as nat) {
                r is None
            } else {
                (r matches Some(Ok(plan)) && {
                    &&& plan.headers.deep_view() == headers
                    &&& plan.column_types@ == table_types(columns, headers)
                    &&& plan.total_rows == total
                    &&& partition_batches_match(
                        plan.partitions@,
                        columns,
                        headers,
                        table_types(columns, headers),
                        total,
                        num_partitions as nat,
                        true,
                    )
                })
            }
        },
{
    let (columns, headers) = match read_nonempty_table(csv_data, ConvertError::NoDataToConvert) {
        Some(Ok(t)) => t,
        Some(Err(e)) => return Some(Err(e)),
        None => return None,
    };
    let total_rows = columns[0].len();
    if !(num_partitions > 0 && total_rows <= usize::MAX - num_partitions) {
        return None;
    }
    let column_types = table_column_types(&columns, &headers);
    let partitions = match partitioned_parquet_batches(&columns, &headers, num_partitions, true) {
        Ok(p) => p,
        Err(e) => return Some(Err(e)),
    };
    Some(Ok(DeltaPartitionedPlan { headers, column_types, total_rows, partitions }))
}

} // verus!
