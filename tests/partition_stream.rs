use compactor::{CompactionJob, MockPartitionsSource, OncePartititionStream, PartitionId};

#[test]
fn once_test_display() {
    let stream = OncePartititionStream::new(MockPartitionsSource::new(vec![]));
    assert_eq!(stream.to_string(), "once(mock)");
}

#[test]
fn test_stream() {
    let ids = vec![
        CompactionJob::new(PartitionId::new(1)),
        CompactionJob::new(PartitionId::new(3)),
        CompactionJob::new(PartitionId::new(2)),
    ];
    let stream = OncePartititionStream::new(MockPartitionsSource::new(ids.clone()));

    // stream is stateless
    for _ in 0..2 {
        assert_eq!(stream.stream(), ids);
    }
}

#[test]
fn stream_of_empty_source_is_empty() {
    let stream = OncePartititionStream::new(MockPartitionsSource::new(vec![]));
    assert!(stream.stream().is_empty());
    assert!(stream.stream().is_empty());
}

#[test]
fn stream_keeps_duplicates_and_order() {
    let ids = vec![
        CompactionJob::new(PartitionId::new(7)),
        CompactionJob::new(PartitionId::new(7)),
        CompactionJob::new(PartitionId::new(-1)),
    ];
    let stream = OncePartititionStream::new(MockPartitionsSource::new(ids.clone()));
    let first = stream.stream();
    let second = stream.stream();
    assert_eq!(first, ids);
    assert_eq!(first, second);
}
