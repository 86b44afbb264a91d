use sqlite2parquet::summary::{fmt_bytes, summarize, RowGroupSizes};

fn group(total_byte_size: i64, column_sizes: Vec<Option<i64>>) -> RowGroupSizes {
    RowGroupSizes { total_byte_size, column_sizes }
}

#[test]
fn sizes_are_summed_per_column() {
    let groups = vec![
        group(1000, vec![Some(100), Some(200), Some(300)]),
        group(2000, vec![Some(10), None, Some(30)]),
        group(500, vec![Some(1), Some(2), Some(3)]),
    ];
    let summary = summarize(3, &groups);
    assert_eq!(summary.total_bytes, 3500);
    assert_eq!(summary.by_col_bytes, vec![111, 202, 333]);
}

#[test]
fn summary_of_no_row_groups() {
    let summary = summarize(2, &Vec::new());
    assert_eq!(summary.total_bytes, 0);
    assert_eq!(summary.by_col_bytes, vec![0, 0]);
    let none = summarize(0, &Vec::new());
    assert!(none.by_col_bytes.is_empty());
}

#[test]
fn groups_with_other_column_counts() {
    let groups = vec![group(10, vec![Some(1)]), group(20, vec![Some(2), Some(3), Some(4)])];
    let summary = summarize(2, &groups);
    assert_eq!(summary.total_bytes, 30);
    assert_eq!(summary.by_col_bytes, vec![3, 3]);
}

#[test]
fn sums_beyond_64_bits_are_exact() {
    let groups = vec![
        group(i64::MAX, vec![Some(i64::MAX)]),
        group(i64::MAX, vec![Some(i64::MAX)]),
        group(i64::MAX, vec![Some(i64::MAX)]),
    ];
    let summary = summarize(1, &groups);
    assert_eq!(summary.total_bytes, 3 * (i64::MAX as i128));
    assert_eq!(summary.by_col_bytes, vec![3 * (i64::MAX as i128)]);
    let negative = summarize(1, &vec![group(i64::MIN, vec![Some(i64::MIN)]); 2]);
    assert_eq!(negative.total_bytes, 2 * (i64::MIN as i128));
}

#[test]
fn sizes_read_as_kibibytes_with_separators() {
    assert_eq!(fmt_bytes(0), "        0 KiB");
    assert_eq!(fmt_bytes(1023), "        0 KiB");
    assert_eq!(fmt_bytes(1024), "        1 KiB");
    assert_eq!(fmt_bytes(1024 * 999), "      999 KiB");
    assert_eq!(fmt_bytes(1024 * 1000), "    1,000 KiB");
    assert_eq!(fmt_bytes(1024 * 1234567), "1,234,567 KiB");
    assert_eq!(fmt_bytes(1024 * 12345678), "12,345,678 KiB");
    assert_eq!(fmt_bytes(1024 * 123456789 + 1023), "123,456,789 KiB");
}

#[test]
fn negative_sizes_round_towards_zero() {
    assert_eq!(fmt_bytes(-1), "        0 KiB");
    assert_eq!(fmt_bytes(-1024), "       -1 KiB");
    assert_eq!(fmt_bytes(-2047), "       -1 KiB");
    assert_eq!(fmt_bytes(-1024 * 1234), "   -1,234 KiB");
    assert_eq!(fmt_bytes(-1024 * 123456), " -123,456 KiB");
}

#[test]
fn extreme_sizes() {
    assert_eq!(
        fmt_bytes(i128::MAX),
        "166,153,499,473,114,484,112,975,882,535,043,071 KiB"
    );
    assert_eq!(
        fmt_bytes(i128::MIN),
        "-166,153,499,473,114,484,112,975,882,535,043,072 KiB"
    );
}
