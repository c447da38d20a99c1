use csv2parquet::csv_input::read_csv_generic;
use csv2parquet::error::ConvertError;
use csv2parquet::table::{create_arrow_arrays, create_schema, infer_column_types, ColumnData, ColumnType};

fn strings(v: &[&str]) -> Vec<String> {
    v.iter().map(|s| s.to_string()).collect()
}

#[test]
fn read_csv_transposes_records_into_columns() {
    let data = b"citizen_id,salary\n1-1000-10000-10-0,15000\n2-2000-20000-20-1,42\n";
    let (columns, headers) = read_csv_generic(data).unwrap();
    assert_eq!(headers, strings(&["citizen_id", "salary"]));
    assert_eq!(columns.len(), 2);
    assert_eq!(columns[0], strings(&["1-1000-10000-10-0", "2-2000-20000-20-1"]));
    assert_eq!(columns[1], strings(&["15000", "42"]));
}

#[test]
fn read_csv_handles_quoted_fields() {
    let data = b"a,b\n\"x, y\",\"say \"\"hi\"\"\"\n";
    let (columns, headers) = read_csv_generic(data).unwrap();
    assert_eq!(headers, strings(&["a", "b"]));
    assert_eq!(columns[0], strings(&["x, y"]));
    assert_eq!(columns[1], strings(&["say \"hi\""]));
}

#[test]
fn read_csv_empty_input_has_no_columns() {
    let (columns, headers) = read_csv_generic(b"").unwrap();
    assert!(columns.is_empty());
    assert!(headers.is_empty());
}

#[test]
fn read_csv_header_only_gives_empty_columns() {
    let (columns, headers) = read_csv_generic(b"a,b\n").unwrap();
    assert_eq!(headers, strings(&["a", "b"]));
    assert_eq!(columns, vec![Vec::<String>::new(), Vec::new()]);
}

#[test]
fn read_csv_rejects_unequal_record_lengths() {
    let r = read_csv_generic(b"a,b\n1,2,3\n");
    assert!(matches!(r, Err(ConvertError::Csv(_))));
}

#[test]
fn read_csv_rejects_invalid_utf8() {
    let r = read_csv_generic(b"a\n\xff\xfe\n");
    assert!(matches!(r, Err(ConvertError::Csv(_))));
}

#[test]
fn infer_types_only_salary_with_integer_value_is_int32() {
    let headers = strings(&["citizen_id", "salary", "salary"]);
    let row = strings(&["123", "45000", "n/a"]);
    assert_eq!(
        infer_column_types(&headers, &row),
        vec![ColumnType::Utf8, ColumnType::Int32, ColumnType::Utf8]
    );
}

#[test]
fn infer_types_follows_i32_parsing() {
    let headers = strings(&["salary"]);
    assert_eq!(infer_column_types(&headers, &strings(&["-7"])), vec![ColumnType::Int32]);
    assert_eq!(infer_column_types(&headers, &strings(&["+7"])), vec![ColumnType::Int32]);
    assert_eq!(infer_column_types(&headers, &strings(&["2147483647"])), vec![ColumnType::Int32]);
    assert_eq!(infer_column_types(&headers, &strings(&["2147483648"])), vec![ColumnType::Utf8]);
    assert_eq!(infer_column_types(&headers, &strings(&[" 7"])), vec![ColumnType::Utf8]);
    assert_eq!(infer_column_types(&headers, &strings(&[""])), vec![ColumnType::Utf8]);
    assert_eq!(infer_column_types(&headers, &strings(&["-"])), vec![ColumnType::Utf8]);
    assert_eq!(infer_column_types(&headers, &strings(&["Salary"])), vec![ColumnType::Utf8]);
}

#[test]
fn infer_types_pairs_up_to_shorter_list() {
    let headers = strings(&["a", "b", "c"]);
    assert_eq!(infer_column_types(&headers, &strings(&["1"])).len(), 1);
    assert_eq!(infer_column_types(&strings(&["a"]), &strings(&["1", "2"])).len(), 1);
}

#[test]
fn schema_has_one_non_nullable_field_per_header() {
    let schema = create_schema(&strings(&["id", "salary", "extra"]), &vec![ColumnType::Utf8, ColumnType::Int32]);
    assert_eq!(schema.len(), 2);
    assert_eq!(schema[0].name, "id");
    assert_eq!(schema[0].data_type, ColumnType::Utf8);
    assert_eq!(schema[1].name, "salary");
    assert_eq!(schema[1].data_type, ColumnType::Int32);
    assert!(!schema[0].nullable && !schema[1].nullable);
}

#[test]
fn arrays_parse_int_columns_with_zero_for_bad_values() {
    let columns = vec![strings(&["a", "b"]), strings(&["10", "x", "-3"])];
    let arrays = create_arrow_arrays(&columns, &vec![ColumnType::Utf8, ColumnType::Int32]);
    assert_eq!(arrays.len(), 2);
    match &arrays[0] {
        ColumnData::Utf8(v) => assert_eq!(v, &strings(&["a", "b"])),
        other => panic!("unexpected {:?}", other),
    }
    match &arrays[1] {
        ColumnData::Int32(v) => assert_eq!(v, &vec![10, 0, -3]),
        other => panic!("unexpected {:?}", other),
    }
}

#[test]
fn arrays_treat_other_types_as_strings() {
    let columns = vec![strings(&["1", "2"])];
    let arrays = create_arrow_arrays(&columns, &vec![ColumnType::Int64]);
    assert!(matches!(&arrays[0], ColumnData::Utf8(v) if v == &strings(&["1", "2"])));
}
