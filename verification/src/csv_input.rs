//! Reading CSV bytes into columns.

use vstd::prelude::*;
use crate::error::ConvertError;

verus! {

/// The table that the `csv` crate reads from `data` (first row as headers,
/// fields as UTF-8 strings), or `None` when it reports an error.
pub uninterp spec fn csv_table(data: Seq<u8>) -> Option<(Seq<Seq<char>>, Seq<Seq<Seq<char>>>)>;

/// Reads `data` with `csv::ReaderBuilder` (headers on, all other settings at
/// their defaults): the header row and every record as strings, stopping at
/// the first error.  The result is named by `csv_table`.  With records of a
/// fixed length (the default), the reader rejects any record whose field
/// count differs from that of the header row, so every record returned has
/// as many fields as the header.
#[verifier::external_body]
fn parse_csv_records(data: &[u8]) -> (res: Result<(Vec<String>, Vec<Vec<String>>), csv::Error>)
    ensures
        match res {
            Ok((headers, records)) => {
                &&& csv_table(data@) == Some((headers.deep_view(), records.deep_view()))
                &&& forall|i: int| 0 <= i < records.len() ==> #[trigger] records[i].len() == headers.len()
            },
            Err(_) => csv_table(data@) is None,
        },
{
    let mut reader = csv::ReaderBuilder::new().has_headers(true).from_reader(data);
    let headers: Vec<String> = reader.headers()?.iter().map(|h| h.to_string()).collect();
    let records = reader
        .records()
        .map(|r| r.map(|rec| rec.iter().map(|f| f.to_string()).collect::<Vec<String>>()))
        .collect::<Result<Vec<Vec<String>>, csv::Error>>()?;
    Ok((headers, records))
}

/// The records that the `csv` crate reads from `data` after the header row
/// (fields as UTF-8 strings, the header row itself not decoded), or `None`
/// when it reports an error on one of them.
pub uninterp spec fn csv_body_records(data: Seq<u8>) -> Option<Seq<Seq<Seq<char>>>>;

/// Reads the records of `data` with `csv::ReaderBuilder` (headers on, all
/// other settings at their defaults), stopping at the first error.  The
/// header row is skipped without being decoded as UTF-8.  The result is
/// named by `csv_body_records`.
#[verifier::external_body]
pub(crate) fn parse_csv_body(data: &[u8]) -> (res: Result<Vec<Vec<String>>, csv::Error>)
    ensures
        match res {
            Ok(records) => csv_body_records(data@) == Some(records.deep_view()),
            Err(_) => csv_body_records(data@) is None,
        },
{
    let mut reader = csv::ReaderBuilder::new().has_headers(true).from_reader(data);
    reader
        .records()
        .map(|r| r.map(|rec| rec.iter().map(|f| f.to_string()).collect::<Vec<String>>()))
        .collect::<Result<Vec<Vec<String>>, csv::Error>>()
}

/// Column `j` of a table with the given records: field `j` of every record.
pub open spec fn column_of(records: Seq<Seq<Seq<char>>>, j: int) -> Seq<Seq<char>> {
    Seq::new(records.len(), |i: int| records[i][j])
}

/// The columns of a table of `width` columns.
pub open spec fn transpose(records: Seq<Seq<Seq<char>>>, width: nat) -> Seq<Seq<Seq<char>>> {
    Seq::new(width, |j: int| column_of(records, j))
}

/// Column `j` of a table holds field `j` of every record, in record order.
pub proof fn lemma_column_of(records: Seq<Seq<Seq<char>>>, j: int)
    ensures
        column_of(records, j).len() == records.len(),
        forall|i: int| 0 <= i < records.len() ==> #[trigger] column_of(records, j)[i] == records[i][j],
{
}

/// The transpose of a table of `width` columns has `width` columns, and
/// column `j` holds field `j` of record `i` at row `i`.
pub proof fn lemma_transpose(records: Seq<Seq<Seq<char>>>, width: nat)
    ensures
        transpose(records, width).len() == width,
        forall|j: int| 0 <= j < width ==> (#[trigger] transpose(records, width)[j]).len() == records.len(),
        forall|j: int, i: int|
            0 <= j < width && 0 <= i < records.len() ==> #[trigger] transpose(records, width)[j][i] == records[i][j],
{
}

/// Reads CSV bytes into columns: the headers, and for each header the
/// column of its fields, in record order.
pub fn read_csv_generic(data: &[u8]) -> (res: Result<(Vec<Vec<String>>, Vec<String>), ConvertError>)
    ensures
        res is Ok <==> csv_table(data@) is Some,
        res matches Ok((columns, headers)) ==> {
            let table = csv_table(data@).unwrap();
            &&& headers.deep_view() == table.0
            &&& columns.deep_view() == transpose(table.1, table.0.len())
            &&& columns.len() == headers.len()
            &&& forall|j: int| 0 <= j < columns.len() ==> (#[trigger] columns[j]).len() == table.1.len()
            &&& forall|j: int, i: int|
                0 <= j < columns.len() && 0 <= i < table.1.len() ==> #[trigger] columns[j][i]@ == table.1[i][j]
        },
        res matches Err(e) ==> e is Csv,
{
    let (headers, records) = match parse_csv_records(data) {
        Ok(t) => t,
        Err(e) => return Err(ConvertError::Csv(e)),
    };
    let ghost table = csv_table(data@).unwrap();
    let num_columns = headers.len();
    let num_rows = records.len();
    let mut columns: Vec<Vec<String>> = Vec::new();
    let mut j: usize = 0;
    while j < num_columns
        invariant
            j <= num_columns,
            num_columns == headers.len(),
            num_rows == records.len(),
            table == (headers.deep_view(), records.deep_view()),
            forall|i: int| 0 <= i < records.len() ==> #[trigger] records[i].len() == headers.len(),
            columns.len() == j,
            forall|k: int| 0 <= k < j ==> #[trigger] columns[k].deep_view() == column_of(table.1, k),
        decreases num_columns - j,
    {
        let mut column: Vec<String> = Vec::new();
        let mut i: usize = 0;
        while i < num_rows
            invariant
                i <= num_rows,
                j < num_columns,
                num_columns == headers.len(),
                num_rows == records.len(),
                table == (headers.deep_view(), records.deep_view()),
                forall|r: int| 0 <= r < records.len() ==> #[trigger] records[r].len() == headers.len(),
                column.len() == i,
                forall|r: int| 0 <= r < i ==> #[trigger] column[r]@ == table.1[r][j as int],
            decreases num_rows - i,
        {
            assert(records[i as int].len() == headers.len());
            column.push(records[i][j].clone());
            assert(table.1[i as int] == records[i as int].deep_view());
            i = i + 1;
        }
        assert(column.deep_view() =~= column_of(table.1, j as int));
        columns.push(column);
        j = j + 1;
    }
    assert(columns.deep_view() =~= transpose(table.1, table.0.len()));
    assert forall|j: int, i: int|
        0 <= j < columns.len() && 0 <= i < table.1.len() implies #[trigger] columns[j][i]@ == table.1[i][j] by {
        assert(columns[j].deep_view() == column_of(table.1, j));
        assert(columns[j].deep_view()[i] == columns[j][i]@);
    }
    assert forall|j: int| 0 <= j < columns.len() implies (#[trigger] columns[j]).len() == table.1.len() by {
        assert(columns[j].deep_view() == column_of(table.1, j));
    }
    Ok((columns, headers))
}

} // verus!
