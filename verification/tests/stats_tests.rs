use csv2parquet::stats::{calculate_column_stats, StatValue};
use csv2parquet::table::ColumnType;

fn strings(v: &[&str]) -> Vec<String> {
    v.iter().map(|s| s.to_string()).collect()
}

#[test]
fn stats_of_int_and_text_columns() {
    let columns = vec![strings(&["b", "a", "c"]), strings(&["30", "x", "-5"])];
    let headers = strings(&["name", "salary"]);
    let stats = calculate_column_stats(&columns, &headers, &vec![ColumnType::Utf8, ColumnType::Int32]);
    assert_eq!(stats.num_records, 3);
    assert_eq!(stats.min_values.len(), 2);
    assert_eq!(stats.min_values[0].0, "name");
    assert!(matches!(&stats.min_values[0].1, StatValue::Text(s) if s == "a"));
    assert!(matches!(&stats.max_values[0].1, StatValue::Text(s) if s == "c"));
    assert_eq!(stats.min_values[1].0, "salary");
    assert!(matches!(stats.min_values[1].1, StatValue::Int(-5)));
    assert!(matches!(stats.max_values[1].1, StatValue::Int(30)));
    assert_eq!(stats.null_count, vec![("name".to_string(), 0), ("salary".to_string(), 0)]);
}

#[test]
fn text_order_is_by_code_point_with_prefix_first() {
    let columns = vec![strings(&["ab", "a", "B", "é", "abc"])];
    let stats = calculate_column_stats(&columns, &strings(&["k"]), &vec![ColumnType::Utf8]);
    assert!(matches!(&stats.min_values[0].1, StatValue::Text(s) if s == "B"));
    assert!(matches!(&stats.max_values[0].1, StatValue::Text(s) if s == "é"));
}

#[test]
fn int_values_compare_numerically_not_as_text() {
    let columns = vec![strings(&["9", "10", "100"])];
    let stats = calculate_column_stats(&columns, &strings(&["salary"]), &vec![ColumnType::Int32]);
    assert!(matches!(stats.min_values[0].1, StatValue::Int(9)));
    assert!(matches!(stats.max_values[0].1, StatValue::Int(100)));
}

#[test]
fn empty_columns_have_no_min_or_max_but_a_null_count() {
    let columns = vec![Vec::new(), Vec::new()];
    let stats = calculate_column_stats(&columns, &strings(&["a", "b"]), &vec![ColumnType::Int32, ColumnType::Utf8]);
    assert_eq!(stats.num_records, 0);
    assert!(stats.min_values.is_empty());
    assert!(stats.max_values.is_empty());
    assert_eq!(stats.null_count.len(), 2);
}

#[test]
fn stats_bounds_hold_on_every_value() {
    let values = strings(&["zeta", "alpha", "Omega", "alphabet", "beta"]);
    let stats = calculate_column_stats(&vec![values.clone()], &strings(&["w"]), &vec![ColumnType::Utf8]);
    let (StatValue::Text(lo), StatValue::Text(hi)) = (&stats.min_values[0].1, &stats.max_values[0].1) else {
        panic!("expected text statistics");
    };
    for v in &values {
        assert!(lo <= v && v <= hi);
    }
    assert!(values.contains(lo) && values.contains(hi));
}

#[test]
fn reordering_rows_keeps_the_statistics() {
    let headers = strings(&["name", "salary"]);
    let types = vec![ColumnType::Utf8, ColumnType::Int32];
    let columns = vec![strings(&["b", "a", "c", "B"]), strings(&["30", "x", "-5", "7"])];
    let reordered = vec![strings(&["c", "B", "b", "a"]), strings(&["-5", "7", "30", "x"])];
    let s1 = calculate_column_stats(&columns, &headers, &types);
    let s2 = calculate_column_stats(&reordered, &headers, &types);
    assert_eq!(s1.num_records, s2.num_records);
    assert_eq!(format!("{:?}", s1.min_values), format!("{:?}", s2.min_values));
    assert_eq!(format!("{:?}", s1.max_values), format!("{:?}", s2.max_values));
    assert_eq!(s1.null_count, s2.null_count);
    assert!(matches!(&s2.min_values[0].1, StatValue::Text(s) if s == "B"));
    assert!(matches!(s2.max_values[1].1, StatValue::Int(30)));
}
