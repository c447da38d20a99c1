use csv2parquet::delta_log::{
    create_delta_log_files, create_delta_log_files_partitioned, delta_log_for_file, delta_log_for_partitions,
    delta_metadata, delta_type_name_of, log_file_name, PartitionFile,
};
use csv2parquet::stats::StatValue;
use csv2parquet::table::ColumnType;

fn strings(v: &[&str]) -> Vec<String> {
    v.iter().map(|s| s.to_string()).collect()
}

#[test]
fn log_file_names_are_twenty_digits() {
    assert_eq!(log_file_name(0), "00000000000000000000.json");
    assert_eq!(log_file_name(1), "00000000000000000001.json");
    assert_eq!(log_file_name(123), "00000000000000000123.json");
}

#[test]
fn type_names_follow_delta_lake() {
    assert_eq!(delta_type_name_of(ColumnType::Int32), "integer");
    assert_eq!(delta_type_name_of(ColumnType::Int64), "long");
    assert_eq!(delta_type_name_of(ColumnType::Float32), "float");
    assert_eq!(delta_type_name_of(ColumnType::Float64), "double");
    assert_eq!(delta_type_name_of(ColumnType::Boolean), "boolean");
    assert_eq!(delta_type_name_of(ColumnType::Utf8), "string");
}

#[test]
fn metadata_names_the_table_after_the_input_file() {
    let md = delta_metadata(
        "mock_data_salary.csv",
        &strings(&["citizen_id", "salary"]),
        &vec![ColumnType::Utf8, ColumnType::Int32],
        "0123",
        1_699_934_881_000,
        false,
    );
    assert_eq!(md.id, "delta-0123");
    assert_eq!(md.name, "mock_data_salary");
    assert_eq!(md.description, "Delta table created from mock_data_salary.csv");
    assert_eq!(md.provider, "parquet");
    assert_eq!(md.schema_fields.len(), 2);
    assert_eq!(md.schema_fields[1].name, "salary");
    assert_eq!(md.schema_fields[1].data_type, "integer");
    assert!(!md.schema_fields[1].nullable);
    assert!(md.partition_columns.is_empty());
    assert_eq!(
        md.configuration,
        vec![
            ("delta.enableChangeDataFeed".to_string(), "true".to_string()),
            ("delta.checkpoint.writeStatsAsJson".to_string(), "true".to_string())
        ]
    );
    assert_eq!(md.created_time, 1_699_934_881_000);
}

#[test]
fn metadata_name_drops_every_trailing_csv() {
    let md = delta_metadata("a.csv.csv", &vec![], &vec![], "u", 0, true);
    assert_eq!(md.name, "a");
    assert_eq!(md.description, "Delta table (partitioned) created from a.csv.csv");
    let md = delta_metadata("data.tsv", &vec![], &vec![], "u", 0, true);
    assert_eq!(md.name, "data.tsv");
}

#[test]
fn single_file_log_has_one_add_action() {
    let columns = vec![strings(&["x", "y"]), strings(&["5", "7"])];
    let headers = strings(&["id", "salary"]);
    let types = vec![ColumnType::Utf8, ColumnType::Int32];
    let log = delta_log_for_file("t.csv", &columns, &headers, &types, "part-00000-data.snappy.parquet", 4096, 2, "u", 1000);
    assert_eq!((log.protocol.min_reader_version, log.protocol.min_writer_version), (1, 2));
    assert_eq!(log.commit_info.timestamp, 2000);
    assert_eq!(log.commit_info.operation, "WRITE");
    assert_eq!(log.commit_info.mode, "Append");
    assert_eq!(log.commit_info.partition_by, "[]");
    assert_eq!(log.commit_info.read_version, 0);
    assert_eq!(log.commit_info.isolation_level, "Serializable");
    assert!(log.commit_info.is_blind_append);
    assert_eq!(log.commit_info.num_files, "1");
    assert_eq!(log.commit_info.num_output_rows, "2");
    assert_eq!(log.commit_info.num_output_bytes, "4096");
    assert_eq!(log.commit_info.engine_info, "Rust-Manual-Delta-1.0");
    assert_eq!(log.add_files.len(), 1);
    let add = &log.add_files[0];
    assert_eq!(add.path, "part-00000-data.snappy.parquet");
    assert_eq!(add.size, 4096);
    assert_eq!(add.modification_time, 2000);
    assert!(add.data_change);
    assert_eq!(add.stats.num_records, 2);
    assert!(matches!(add.stats.max_values[1].1, StatValue::Int(7)));
}

#[test]
fn partitioned_log_sums_sizes_and_keeps_file_order() {
    let headers = strings(&["salary"]);
    let types = vec![ColumnType::Int32];
    let files = vec![
        PartitionFile { file_name: "part-0000-data.snappy.parquet".to_string(), size: 100, columns: vec![strings(&["3", "1"])] },
        PartitionFile { file_name: "part-0001-data.snappy.parquet".to_string(), size: 250, columns: vec![strings(&["9"])] },
    ];
    let log = delta_log_for_partitions("s.csv", &headers, &types, &files, 3, "u", 5);
    assert_eq!(log.commit_info.num_files, "2");
    assert_eq!(log.commit_info.num_output_rows, "3");
    assert_eq!(log.commit_info.num_output_bytes, "350");
    assert_eq!(log.commit_info.timestamp, 1005);
    assert_eq!(log.add_files.len(), 2);
    assert_eq!(log.add_files[0].path, "part-0000-data.snappy.parquet");
    assert_eq!(log.add_files[1].size, 250);
    assert_eq!(log.add_files[0].stats.num_records, 2);
    assert!(matches!(log.add_files[0].stats.min_values[0].1, StatValue::Int(1)));
    assert!(matches!(log.add_files[1].stats.min_values[0].1, StatValue::Int(9)));
    assert_eq!(log.metadata.name, "s");
}

fn is_uuid_text(s: &str) -> bool {
    s.len() == 36
        && s.chars().enumerate().all(|(i, c)| {
            if [8, 13, 18, 23].contains(&i) { c == '-' } else { c.is_ascii_hexdigit() && !c.is_ascii_uppercase() }
        })
}

#[test]
fn created_log_draws_a_uuid_and_the_current_time() {
    let columns = vec![strings(&["a"])];
    let log = create_delta_log_files("x.csv", &columns, &strings(&["h"]), &vec![ColumnType::Utf8], "f", 1, 1).unwrap();
    assert!(log.metadata.id.starts_with("delta-"));
    assert!(is_uuid_text(&log.metadata.id[6..]));
    assert!(log.metadata.created_time > 1_600_000_000_000);
    assert_eq!(log.commit_info.timestamp, log.metadata.created_time + 1000);
    let other = create_delta_log_files("x.csv", &columns, &strings(&["h"]), &vec![ColumnType::Utf8], "f", 1, 1).unwrap();
    assert_ne!(log.metadata.id, other.metadata.id);
}

#[test]
fn created_partitioned_log_draws_a_uuid() {
    let files = vec![PartitionFile { file_name: "p".to_string(), size: 3, columns: vec![strings(&["a"])] }];
    let log = create_delta_log_files_partitioned("x.csv", &strings(&["h"]), &vec![ColumnType::Utf8], &files, 1).unwrap();
    assert!(is_uuid_text(&log.metadata.id[6..]));
    assert_eq!(log.add_files[0].modification_time, log.metadata.created_time + 1000);
}
