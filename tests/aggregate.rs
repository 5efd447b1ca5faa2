use telemetry::aggregate::{bucket_start, get_fragment, get_start, missing_buckets, start_from};

#[test]
fn fragments_by_unit() {
    assert_eq!(get_fragment("day"), (14400, 6));
    assert_eq!(get_fragment("week"), (86400, 7));
    assert_eq!(get_fragment("month"), (648000, 4));
    assert_eq!(get_fragment("year"), (7884000, 4));
    assert_eq!(get_fragment("decade"), (14400, 6));
}

#[test]
fn range_start() {
    assert_eq!(start_from(1_000_000, (14400, 6)), 1_000_000 - 86400);
    assert_eq!(start_from(i64::MIN + 5, (10, 1)), i64::MIN);
    let s = get_start((86400, 7));
    assert!(s > 1_600_000_000 - 604800);
}

#[test]
fn missing_bucket_indices() {
    assert_eq!(missing_buckets(&vec![0, 2, 5], 6), vec![1, 3, 4]);
    assert_eq!(missing_buckets(&vec![], 3), vec![0, 1, 2]);
    assert_eq!(missing_buckets(&vec![0, 1, 2, 9], 3), Vec::<u32>::new());
}

#[test]
fn bucket_starts() {
    assert_eq!(bucket_start(1000, 60, 0), 1000);
    assert_eq!(bucket_start(1000, 60, 3), 1180);
    assert_eq!(bucket_start(-5000, 100, 2), -4800);
    assert_eq!(bucket_start(i64::MAX - 1, 10, 1), i64::MAX);
}
