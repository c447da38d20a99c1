//! Column types, schemas and typed column data of a table.

use vstd::prelude::*;
use crate::text::{decimal_i32, parse_i32};

verus! {

/// The type of a column.  Inference produces `Int32` and `Utf8`; the other
/// types are those that the Delta Lake schema writer knows by name.
#[derive(Clone, Copy, Debug, PartialEq, Eq, Structural)]
pub enum ColumnType {
    Int32,
    Int64,
    Float32,
    Float64,
    Boolean,
    Utf8,
}

/// One field of a table schema.
#[derive(Debug)]
pub struct SchemaField {
    pub name: String,
    pub data_type: ColumnType,
    pub nullable: bool,
}

/// The values of one column, typed.
#[derive(Debug)]
pub enum ColumnData {
    Int32(Vec<i32>),
    Utf8(Vec<String>),
}

/// A table ready to be encoded: its schema and one typed column per field.
#[derive(Debug)]
pub struct TableBatch {
    pub schema: Vec<SchemaField>,
    pub columns: Vec<ColumnData>,
}

pub open spec fn min_len(a: nat, b: nat) -> nat {
    if a <= b { a } else { b }
}

/// The type inferred for a column from its header and its first value: a
/// column named `salary` whose first value parses as `i32` is `Int32`,
/// every other column is `Utf8`.
pub open spec fn inferred_type(header: Seq<char>, value: Seq<char>) -> ColumnType {
    if header == "salary"@ && decimal_i32(value) is Some {
        ColumnType::Int32
    } else {
        ColumnType::Utf8
    }
}

/// The `i32` value of a field, or 0 when it does not parse.
pub open spec fn int32_or_zero(s: Seq<char>) -> i32 {
    match decimal_i32(s) {
        Some(v) => v,
        None => 0,
    }
}

/// The typed data built from the string fields of a column of type `t`.
pub open spec fn typed_column_matches(
    t: ColumnType,
    fields: Seq<Seq<char>>,
    data: ColumnData,
) -> bool {
    match t {
        ColumnType::Int32 => data matches ColumnData::Int32(values) && values@ == Seq::new(
            fields.len(),
            |k: int| int32_or_zero(fields[k]),
        ),
        _ => data matches ColumnData::Utf8(strings) && strings.deep_view() == fields,
    }
}

impl ColumnData {
    /// Number of values in the column.
    pub open spec fn spec_len(&self) -> nat {
        match self {
            ColumnData::Int32(v) => v@.len(),
            ColumnData::Utf8(v) => v@.len(),
        }
    }

    /// The type that this column data carries.
    pub open spec fn spec_type(&self) -> ColumnType {
        match self {
            ColumnData::Int32(_) => ColumnType::Int32,
            ColumnData::Utf8(_) => ColumnType::Utf8,
        }
    }
}

impl TableBatch {
    /// The batch is well formed: as many columns as fields, each column of
    /// its field's type and of `num_rows` values, every field not nullable.
    /// These are the conditions under which an Arrow record batch accepts it.
    pub open spec fn well_formed(&self, num_rows: nat) -> bool {
        &&& self.schema.len() == self.columns.len()
        &&& forall|i: int| 0 <= i < self.columns.len() ==> {
            &&& #[trigger] self.columns[i].spec_type() == self.schema[i].data_type
            &&& self.columns[i].spec_len() == num_rows
            &&& !self.schema[i].nullable
        }
    }
}

/// Infers one type per column from the headers and the first row, pairing
/// them up to the shorter of the two.
pub fn infer_column_types(headers: &Vec<String>, first_row: &Vec<String>) -> (types: Vec<ColumnType>)
    ensures
        types.len() == min_len(headers.len() as nat, first_row.len() as nat),
        forall|i: int| 0 <= i < types.len() ==> #[trigger] types[i] == inferred_type(headers[i]@, first_row[i]@),
{
    let n = if headers.len() <= first_row.len() { headers.len() } else { first_row.len() };
    let salary = String::from_str("salary");
    let mut types: Vec<ColumnType> = Vec::new();
    let mut i: usize = 0;
    while i < n
        invariant
            i <= n,
            n == min_len(headers.len() as nat, first_row.len() as nat),
            salary@ == "salary"@,
            types.len() == i,
            forall|k: int| 0 <= k < i ==> #[trigger] types[k] == inferred_type(headers[k]@, first_row[k]@),
        decreases n - i,
    {
        let t = if headers[i] == salary && parse_i32(first_row[i].as_str()).is_some() {
            ColumnType::Int32
        } else {
            ColumnType::Utf8
        };
        types.push(t);
        i = i + 1;
    }
    types
}

/// The schema of a table: one non-nullable field per header, typed by the
/// matching column type, up to the shorter of the two lists.
pub fn create_schema(headers: &Vec<String>, column_types: &Vec<ColumnType>) -> (schema: Vec<SchemaField>)
    ensures
        schema.len() == min_len(headers.len() as nat, column_types.len() as nat),
        forall|i: int| 0 <= i < schema.len() ==> {
            &&& (#[trigger] schema[i]).name@ == headers[i]@
            &&& schema[i].data_type == column_types[i]
            &&& !schema[i].nullable
        },
{
    let n = if headers.len() <= column_types.len() { headers.len() } else { column_types.len() };
    let mut schema: Vec<SchemaField> = Vec::new();
    let mut i: usize = 0;
    while i < n
        invariant
            i <= n,
            n == min_len(headers.len() as nat, column_types.len() as nat),
            schema.len() == i,
            forall|k: int| 0 <= k < i ==> {
                &&& (#[trigger] schema[k]).name@ == headers[k]@
                &&& schema[k].data_type == column_types[k]
                &&& !schema[k].nullable
            },
        decreases n - i,
    {
        schema.push(SchemaField { name: headers[i].clone(), data_type: column_types[i], nullable: false });
        i = i + 1;
    }
    schema
}

/// Typed data of one column: `i32` values (0 for a field that does not
/// parse) for an `Int32` column, the strings themselves otherwise.
pub fn typed_column(column: &Vec<String>, t: ColumnType) -> (data: ColumnData)
    ensures
        typed_column_matches(t, column.deep_view(), data),
        data.spec_len() == column.len(),
{
    match t {
        ColumnType::Int32 => {
            let mut values: Vec<i32> = Vec::new();
            let mut k: usize = 0;
            while k < column.len()
                invariant
                    k <= column.len(),
                    values.len() == k,
                    forall|r: int| 0 <= r < k ==> #[trigger] values[r] == int32_or_zero(column[r]@),
                decreases column.len() - k,
            {
                let v = match parse_i32(column[k].as_str()) {
                    Some(v) => v,
                    None => 0,
                };
                values.push(v);
                k = k + 1;
            }
            assert(values@ =~= Seq::new(column.deep_view().len(), |r: int| int32_or_zero(column.deep_view()[r])));
            ColumnData::Int32(values)
        },
        _ => {
            let mut strings: Vec<String> = Vec::new();
            let mut k: usize = 0;
            while k < column.len()
                invariant
                    k <= column.len(),
                    strings.len() == k,
                    forall|r: int| 0 <= r < k ==> #[trigger] strings[r]@ == column[r]@,
                decreases column.len() - k,
            {
                strings.push(column[k].clone());
                k = k + 1;
            }
            assert(strings.deep_view() =~= column.deep_view());
            ColumnData::Utf8(strings)
        },
    }
}

/// Typed data for each column, paired with the column types up to the
/// shorter of the two lists.
pub fn create_arrow_arrays(columns: &Vec<Vec<String>>, column_types: &Vec<ColumnType>) -> (arrays: Vec<ColumnData>)
    ensures
        arrays.len() == min_len(columns.len() as nat, column_types.len() as nat),
        forall|i: int| 0 <= i < arrays.len() ==> {
            &&& typed_column_matches(column_types[i], columns[i].deep_view(), #[trigger] arrays[i])
            &&& arrays[i].spec_len() == columns[i].len()
        },
{
    let n = if columns.len() <= column_types.len() { columns.len() } else { column_types.len() };
    let mut arrays: Vec<ColumnData> = Vec::new();
    let mut i: usize = 0;
    while i < n
        invariant
            i <= n,
            n == min_len(columns.len() as nat, column_types.len() as nat),
            arrays.len() == i,
            forall|k: int| 0 <= k < i ==> {
                &&& typed_column_matches(column_types[k], columns[k].deep_view(), #[trigger] arrays[k])
                &&& arrays[k].spec_len() == columns[k].len()
            },
        decreases n - i,
    {
        arrays.push(typed_column(&columns[i], column_types[i]));
        i = i + 1;
    }
    arrays
}

} // verus!
