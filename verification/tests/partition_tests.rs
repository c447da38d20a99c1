use csv2parquet::partition::partition_columns;

fn column(n: usize) -> Vec<String> {
    (0..n).map(|i| i.to_string()).collect()
}

#[test]
fn ten_rows_four_ways_gives_three_rows_per_partition() {
    let columns = vec![column(10), column(10)];
    let parts = partition_columns(&columns, 4);
    let ranges: Vec<(usize, usize, usize)> = parts.iter().map(|p| (p.index, p.start_row, p.end_row)).collect();
    assert_eq!(ranges, vec![(0, 0, 3), (1, 3, 6), (2, 6, 9), (3, 9, 10)]);
    assert_eq!(parts[3].columns[1], vec!["9".to_string()]);
}

#[test]
fn fewer_rows_than_partitions_stops_early() {
    let columns = vec![column(3)];
    let parts = partition_columns(&columns, 4);
    let ranges: Vec<(usize, usize)> = parts.iter().map(|p| (p.start_row, p.end_row)).collect();
    assert_eq!(ranges, vec![(0, 1), (1, 2), (2, 3)]);
}

#[test]
fn five_rows_four_ways_uses_only_three_slots() {
    let parts = partition_columns(&vec![column(5)], 4);
    let ranges: Vec<(usize, usize)> = parts.iter().map(|p| (p.start_row, p.end_row)).collect();
    assert_eq!(ranges, vec![(0, 2), (2, 4), (4, 5)]);
}

#[test]
fn no_rows_gives_no_partitions() {
    assert!(partition_columns(&vec![Vec::new()], 4).is_empty());
}

#[test]
fn partitions_rebuild_every_column() {
    let columns = vec![column(17), column(17).into_iter().rev().collect()];
    for n in 1..20 {
        let parts = partition_columns(&columns, n);
        assert!(parts.len() <= n);
        for c in 0..columns.len() {
            let rebuilt: Vec<String> = parts.iter().flat_map(|p| p.columns[c].clone()).collect();
            assert_eq!(rebuilt, columns[c]);
        }
        for p in &parts {
            assert!(p.start_row < p.end_row);
        }
    }
}
