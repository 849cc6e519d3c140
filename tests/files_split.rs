use compactor::{AllAtOnceNonOverlapSplit, CompactionLevel, FilesSplit, NonOverlapSplit, ParquetFile};

/// Eight files of all levels in one partition, most of them overlapping.
fn create_overlapped_files() -> Vec<ParquetFile> {
    vec![
        ParquetFile::new(1, 1, CompactionLevel::Initial, 0, 100),
        ParquetFile::new(2, 1, CompactionLevel::Initial, 50, 150),
        ParquetFile::new(3, 1, CompactionLevel::Initial, 140, 200),
        ParquetFile::new(4, 1, CompactionLevel::FileNonOverlapped, 0, 60),
        ParquetFile::new(5, 1, CompactionLevel::FileNonOverlapped, 61, 120),
        ParquetFile::new(6, 1, CompactionLevel::Final, 0, 500),
        ParquetFile::new(7, 1, CompactionLevel::Final, 501, 900),
        ParquetFile::new(8, 1, CompactionLevel::Initial, 800, 850),
    ]
}

fn ids(files: &[ParquetFile]) -> Vec<i64> {
    files.iter().map(|f| f.id.get()).collect()
}

#[test]
fn all_at_once_non_overlap_split_test_display() {
    assert_eq!(
        AllAtOnceNonOverlapSplit::new().to_string(),
        "Non-overlapping  split for AllAtOnce version"
    );
}

#[test]
fn test_apply_empty_files() {
    let files = vec![];
    let split = AllAtOnceNonOverlapSplit::new();

    let (overlap, non_overlap) = split.apply(files, CompactionLevel::FileNonOverlapped);
    assert_eq!(overlap.len(), 0);
    assert_eq!(non_overlap.len(), 0);
}

#[test]
fn test_apply() {
    // Create 8 files with all levels
    let files = create_overlapped_files();
    assert_eq!(files.len(), 8);

    let split = AllAtOnceNonOverlapSplit::new();
    let (overlap, non_overlap) = split.apply(files.clone(), CompactionLevel::Initial);
    assert_eq!(overlap.len(), 8);
    assert_eq!(non_overlap.len(), 0);

    let (overlap, non_overlap) = split.apply(files.clone(), CompactionLevel::FileNonOverlapped);
    assert_eq!(overlap.len(), 8);
    assert_eq!(non_overlap.len(), 0);

    let (overlap, non_overlap) = split.apply(files, CompactionLevel::Final);
    assert_eq!(overlap.len(), 8);
    assert_eq!(non_overlap.len(), 0);
}

#[test]
fn non_overlap_split_display() {
    assert_eq!(NonOverlapSplit::new().to_string(), "Non-overlapping split");
}

#[test]
fn non_overlap_split_three_files() {
    let a = ParquetFile::new(1, 1, CompactionLevel::Initial, 0, 10);
    let b = ParquetFile::new(2, 1, CompactionLevel::Initial, 5, 15);
    let c = ParquetFile::new(3, 1, CompactionLevel::Initial, 20, 30);
    let (rewrite, promote) =
        NonOverlapSplit::new().apply(vec![a, b, c], CompactionLevel::FileNonOverlapped);
    assert_eq!(rewrite, vec![a, b]);
    assert_eq!(promote, vec![c]);
}

#[test]
fn non_overlap_split_empty() {
    let (rewrite, promote) = NonOverlapSplit::new().apply(vec![], CompactionLevel::Final);
    assert!(rewrite.is_empty());
    assert!(promote.is_empty());
}

#[test]
fn non_overlap_split_single_file_is_promoted() {
    let a = ParquetFile::new(9, 1, CompactionLevel::Initial, 0, 10);
    let (rewrite, promote) = NonOverlapSplit::new().apply(vec![a], CompactionLevel::FileNonOverlapped);
    assert!(rewrite.is_empty());
    assert_eq!(promote, vec![a]);
}

#[test]
fn non_overlap_split_touching_ranges_overlap() {
    // closed intervals: [0,10] and [10,20] share the instant 10
    let a = ParquetFile::new(1, 1, CompactionLevel::Initial, 0, 10);
    let b = ParquetFile::new(2, 1, CompactionLevel::Initial, 10, 20);
    let (rewrite, promote) = NonOverlapSplit::new().apply(vec![a, b], CompactionLevel::FileNonOverlapped);
    assert_eq!(rewrite, vec![a, b]);
    assert!(promote.is_empty());
}

#[test]
fn non_overlap_split_lower_level_peer_does_not_block() {
    // the final file overlaps only a lower-level file, so only the lower one is rewritten
    let low = ParquetFile::new(1, 1, CompactionLevel::Initial, 0, 10);
    let high = ParquetFile::new(2, 1, CompactionLevel::Final, 5, 15);
    let (rewrite, promote) = NonOverlapSplit::new().apply(vec![low, high], CompactionLevel::Final);
    assert_eq!(rewrite, vec![low]);
    assert_eq!(promote, vec![high]);
}

#[test]
fn non_overlap_split_partitions_overlapped_files() {
    let files = create_overlapped_files();
    let (rewrite, promote) = NonOverlapSplit::new().apply(files.clone(), CompactionLevel::FileNonOverlapped);
    assert_eq!(ids(&rewrite), vec![1, 2, 3, 4, 5, 8]);
    assert_eq!(ids(&promote), vec![6, 7]);
    let mut all = ids(&rewrite);
    all.extend(ids(&promote));
    all.sort();
    assert_eq!(all, ids(&files));
    for (i, x) in promote.iter().enumerate() {
        for y in promote.iter().skip(i + 1) {
            assert!(!x.overlaps(y));
        }
    }
}

#[test]
fn non_overlap_split_is_deterministic() {
    let files = create_overlapped_files();
    let split = NonOverlapSplit::new();
    let first = split.apply(files.clone(), CompactionLevel::Final);
    let second = split.apply(files, CompactionLevel::Final);
    assert_eq!(first, second);
}
