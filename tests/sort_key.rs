use compactor::{
    chunks_have_distinct_counts, compute_sort_key, compute_sort_key_for_chunks, primary_key,
    ChunkSummary, ColumnSchema,
};

fn col(name: &str, is_tag: bool) -> ColumnSchema {
    ColumnSchema { name: name.to_string(), is_tag }
}

fn schema() -> Vec<ColumnSchema> {
    vec![col("tag2", true), col("tag1", true), col("field", false), col("time", false), col("tag3", true)]
}

fn chunk(counts: Option<Vec<Option<u64>>>) -> ChunkSummary {
    ChunkSummary { columns: schema(), distinct_counts: counts }
}

#[test]
fn sort_key_orders_by_cardinality_then_name() {
    let chunks = vec![
        chunk(Some(vec![Some(5), Some(10), Some(1), Some(100), Some(3)])),
        chunk(Some(vec![Some(5), Some(1), Some(1), Some(100), Some(3)])),
    ];
    // tag1: 11, tag2: 10, tag3: 6
    assert_eq!(compute_sort_key(&chunks), vec!["tag3", "tag2", "tag1", "time"]);
}

#[test]
fn sort_key_ties_broken_by_name() {
    let chunks = vec![chunk(Some(vec![Some(2), Some(2), None, None, Some(2)]))];
    assert_eq!(compute_sort_key(&chunks), vec!["tag1", "tag2", "tag3", "time"]);
}

#[test]
fn sort_key_skips_chunks_without_statistics() {
    let chunks = vec![
        chunk(None),
        ChunkSummary {
            columns: vec![col("b", true), col("a", true)],
            distinct_counts: Some(vec![Some(1)]),
        },
    ];
    assert_eq!(compute_sort_key(&chunks), vec!["b", "time"]);
}

#[test]
fn sort_key_of_no_chunks_is_time() {
    assert_eq!(compute_sort_key(&vec![]), vec!["time"]);
}

#[test]
fn sort_key_cardinality_saturates() {
    let chunks = vec![
        ChunkSummary {
            columns: vec![col("a", true), col("b", true)],
            distinct_counts: Some(vec![Some(u64::MAX), Some(7)]),
        },
        ChunkSummary {
            columns: vec![col("a", true), col("b", true)],
            distinct_counts: Some(vec![Some(u64::MAX), Some(7)]),
        },
    ];
    assert_eq!(compute_sort_key(&chunks), vec!["b", "a", "time"]);
}

#[test]
fn distinct_counts_required_everywhere() {
    assert!(chunks_have_distinct_counts(&vec![]));
    assert!(chunks_have_distinct_counts(&vec![chunk(Some(vec![Some(1); 5]))]));
    assert!(!chunks_have_distinct_counts(&vec![chunk(None)]));
    assert!(!chunks_have_distinct_counts(&vec![chunk(Some(vec![Some(1), None]))]));
}

#[test]
fn primary_key_sorts_tags_then_time() {
    assert_eq!(primary_key(&schema()), vec!["tag1", "tag2", "tag3", "time"]);
    assert_eq!(primary_key(&vec![]), vec!["time"]);
}

#[test]
fn sort_key_for_chunks_falls_back_to_primary_key() {
    let with_stats = vec![chunk(Some(vec![Some(9), Some(1), Some(1), Some(1), Some(5)]))];
    assert_eq!(
        compute_sort_key_for_chunks(&schema(), &with_stats),
        vec!["tag1", "tag3", "tag2", "time"]
    );
    let missing = vec![chunk(Some(vec![Some(9), None, Some(1), Some(1), Some(5)]))];
    assert_eq!(
        compute_sort_key_for_chunks(&schema(), &missing),
        vec!["tag1", "tag2", "tag3", "time"]
    );
}
