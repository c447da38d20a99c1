use csv2parquet::error::ConvertError;
use csv2parquet::query::{
    count_matches_in_column, query_batches, query_csv, search_in_batch, QueryBatch, QueryColumn, RowMatchCount,
};

#[test]
fn query_csv_counts_rows_with_a_matching_field() {
    let data = b"first_name,last_name\nJohn,Smith\nSmithers,Jones\nAnna,Lee\nSmith,Smith\n";
    let r = query_csv(data, "Smith").unwrap();
    assert_eq!(r, RowMatchCount { total_rows: 4, matching_rows: 3 });
}

#[test]
fn query_csv_skips_the_header_row() {
    let r = query_csv(b"Smith\nx\n", "Smith").unwrap();
    assert_eq!(r, RowMatchCount { total_rows: 1, matching_rows: 0 });
}

#[test]
fn query_csv_empty_pattern_matches_rows_with_fields() {
    let r = query_csv(b"a\n1\n2\n", "").unwrap();
    assert_eq!(r, RowMatchCount { total_rows: 2, matching_rows: 2 });
}

#[test]
fn query_csv_reports_parse_errors() {
    assert!(matches!(query_csv(b"a,b\n1\n", "1"), Err(ConvertError::Csv(_))));
}

fn text(values: &[Option<&str>]) -> Vec<Option<String>> {
    values.iter().map(|v| v.map(|s| s.to_string())).collect()
}

#[test]
fn column_match_counts_at_most_one() {
    let col = text(&[Some("Smith"), None, Some("Smithson")]);
    assert_eq!(count_matches_in_column(&col, "Smith", 3), 1);
    assert_eq!(count_matches_in_column(&col, "Jones", 3), 0);
    assert_eq!(count_matches_in_column(&col, "son", 2), 0);
    assert_eq!(count_matches_in_column(&col, "son", 3), 1);
}

#[test]
fn batch_search_counts_string_columns_with_a_match() {
    let batch = QueryBatch {
        num_rows: 2,
        columns: vec![
            QueryColumn::Text(text(&[Some("Smith"), Some("Smith")])),
            QueryColumn::Other,
            QueryColumn::Text(text(&[None, Some("Lee")])),
            QueryColumn::Text(text(&[Some("x"), Some("Smithy")])),
        ],
    };
    assert_eq!(search_in_batch(&batch, "Smith"), 2);
    let both = vec![batch, QueryBatch { num_rows: 5, columns: vec![QueryColumn::Other] }];
    assert_eq!(query_batches(&both, "Smith"), RowMatchCount { total_rows: 7, matching_rows: 2 });
}

#[test]
fn query_csv_does_not_decode_the_header_row() {
    let r = query_csv(b"\xff\nSmith\n", "Smith").unwrap();
    assert_eq!(r, RowMatchCount { total_rows: 1, matching_rows: 1 });
}
