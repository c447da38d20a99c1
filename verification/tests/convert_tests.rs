use csv2parquet::convert::{
    convert_csv_to_delta, convert_csv_to_delta_partitioned, convert_csv_to_parquet, has_parquet_extension,
    partition_file_name, partitioned_parquet_batches, single_parquet_batch,
};
use csv2parquet::error::ConvertError;
use csv2parquet::table::{ColumnData, ColumnType};

const SALARY_CSV: &[u8] = b"citizen_id,salary\n1-1000-10000-10-0,15000\n2-2000-20000-20-1,20000\n3-3000-30000-30-2,x\n4-4000-40000-40-3,40000\n5-5000-50000-50-4,50000\n";

#[test]
fn parquet_conversion_plans_single_and_partitioned_outputs() {
    let conv = convert_csv_to_parquet(SALARY_CSV, 4).unwrap().unwrap();
    assert_eq!(conv.total_rows, 5);
    let schema: Vec<(String, ColumnType)> = conv.single.schema.iter().map(|f| (f.name.clone(), f.data_type)).collect();
    assert_eq!(schema, vec![("citizen_id".to_string(), ColumnType::Utf8), ("salary".to_string(), ColumnType::Int32)]);
    assert!(matches!(&conv.single.columns[1], ColumnData::Int32(v) if v == &vec![15000, 20000, 0, 40000, 50000]));
    let parts: Vec<(usize, usize, String)> =
        conv.partitions.iter().map(|p| (p.start_row, p.end_row, p.file_name.clone())).collect();
    assert_eq!(
        parts,
        vec![
            (0, 2, "part-0000.parquet".to_string()),
            (2, 4, "part-0001.parquet".to_string()),
            (4, 5, "part-0002.parquet".to_string())
        ]
    );
    assert!(matches!(&conv.partitions[1].batch.columns[1], ColumnData::Int32(v) if v == &vec![0, 40000]));
}

#[test]
fn parquet_conversion_without_columns_has_no_data() {
    assert!(matches!(convert_csv_to_parquet(b"", 4), Some(Err(ConvertError::NoDataToWrite))));
}

#[test]
fn parquet_conversion_without_rows_cannot_proceed() {
    assert!(convert_csv_to_parquet(b"a,b\n", 4).is_none());
}

#[test]
fn parquet_conversion_reports_csv_errors() {
    assert!(matches!(convert_csv_to_parquet(b"a,b\n1\n", 4), Some(Err(ConvertError::Csv(_)))));
}

#[test]
fn parquet_conversion_with_huge_partition_count_cannot_proceed() {
    assert!(convert_csv_to_parquet(b"a\n1\n", usize::MAX).is_none());
    let conv = convert_csv_to_parquet(b"a\n1\n", usize::MAX - 1).unwrap().unwrap();
    assert_eq!(conv.partitions.len(), 1);
}

#[test]
fn single_batch_of_no_columns_has_no_data() {
    assert!(matches!(single_parquet_batch(&vec![], &vec![]), Err(ConvertError::NoDataToWrite)));
}

#[test]
fn delta_conversion_plans_one_data_file() {
    let plan = convert_csv_to_delta(SALARY_CSV).unwrap().unwrap();
    assert_eq!(plan.data_file_name, "part-00000-data.snappy.parquet");
    assert_eq!(plan.total_rows, 5);
    assert_eq!(plan.column_types, vec![ColumnType::Utf8, ColumnType::Int32]);
    assert_eq!(plan.headers, vec!["citizen_id".to_string(), "salary".to_string()]);
    assert_eq!(plan.columns[1][2], "x");
}

#[test]
fn delta_conversion_without_columns_has_no_data() {
    assert!(matches!(convert_csv_to_delta(b""), Some(Err(ConvertError::NoDataToConvert))));
    assert!(matches!(convert_csv_to_delta_partitioned(b"", 4), Some(Err(ConvertError::NoDataToConvert))));
}

#[test]
fn delta_partitioned_conversion_names_files_for_delta() {
    let plan = convert_csv_to_delta_partitioned(SALARY_CSV, 2).unwrap().unwrap();
    let names: Vec<&str> = plan.partitions.iter().map(|p| p.file_name.as_str()).collect();
    assert_eq!(names, vec!["part-0000-data.snappy.parquet", "part-0001-data.snappy.parquet"]);
    assert_eq!(plan.partitions[0].columns[0].len(), 3);
    assert_eq!(plan.partitions[1].columns[0].len(), 2);
}

#[test]
fn first_value_decides_the_salary_type() {
    let plan = convert_csv_to_delta(b"salary\nabc\n12\n").unwrap().unwrap();
    assert_eq!(plan.column_types, vec![ColumnType::Utf8]);
}

#[test]
fn partition_file_names_are_zero_padded() {
    assert_eq!(partition_file_name(7, false), "part-0007.parquet");
    assert_eq!(partition_file_name(12345, false), "part-12345.parquet");
    assert_eq!(partition_file_name(3, true), "part-0003-data.snappy.parquet");
}

#[test]
fn parquet_extension_needs_a_stem() {
    assert!(has_parquet_extension("part-0000.parquet"));
    assert!(has_parquet_extension("a.b.parquet"));
    assert!(!has_parquet_extension(".parquet"));
    assert!(!has_parquet_extension("x.parquet.json"));
    assert!(!has_parquet_extension("xparquet"));
    assert!(has_parquet_extension("é.parquet"));
}

fn column_len(c: &ColumnData) -> usize {
    match c {
        ColumnData::Int32(v) => v.len(),
        ColumnData::Utf8(v) => v.len(),
    }
}

fn column_type(c: &ColumnData) -> ColumnType {
    match c {
        ColumnData::Int32(_) => ColumnType::Int32,
        ColumnData::Utf8(_) => ColumnType::Utf8,
    }
}

#[test]
fn planned_batches_are_well_formed() {
    let conv = convert_csv_to_parquet(SALARY_CSV, 3).unwrap().unwrap();
    assert_eq!(conv.single.schema.len(), conv.single.columns.len());
    for (field, column) in conv.single.schema.iter().zip(&conv.single.columns) {
        assert_eq!(field.data_type, column_type(column));
        assert_eq!(column_len(column), 5);
    }
    let mut rebuilt = Vec::new();
    for part in &conv.partitions {
        for (field, column) in part.batch.schema.iter().zip(&part.batch.columns) {
            assert_eq!(field.data_type, column_type(column));
            assert_eq!(column_len(column), part.end_row - part.start_row);
        }
        rebuilt.extend(part.columns[0].clone());
    }
    let (columns, _) = csv2parquet::csv_input::read_csv_generic(SALARY_CSV).unwrap();
    assert_eq!(rebuilt, columns[0]);
}

#[test]
fn zero_partitions_still_report_csv_and_no_data_errors() {
    assert!(matches!(convert_csv_to_parquet(b"", 0), Some(Err(ConvertError::NoDataToWrite))));
    assert!(matches!(convert_csv_to_parquet(b"a,b\n1\n", 0), Some(Err(ConvertError::Csv(_)))));
    assert!(matches!(convert_csv_to_delta_partitioned(b"", 0), Some(Err(ConvertError::NoDataToConvert))));
    assert!(matches!(convert_csv_to_delta_partitioned(b"a,b\n1\n", 0), Some(Err(ConvertError::Csv(_)))));
}

#[test]
fn zero_partitions_of_a_table_with_rows_cannot_proceed() {
    assert!(convert_csv_to_parquet(SALARY_CSV, 0).is_none());
    assert!(convert_csv_to_delta_partitioned(SALARY_CSV, 0).is_none());
}

#[test]
fn partitioning_no_columns_has_no_data_for_any_count() {
    assert!(matches!(partitioned_parquet_batches(&vec![], &vec![], 0, false), Err(ConvertError::NoDataToWrite)));
    assert!(matches!(partitioned_parquet_batches(&vec![], &vec![], 4, true), Err(ConvertError::NoDataToWrite)));
}
