use compactor::{
    FlakyStore, OutcomeStore, PartitionDoneSink, PartitionId, RetryPolicy, RetryStep,
    RetryingSink, SinkError,
};

#[test]
fn sink_retries_until_store_accepts() {
    let mut sink = RetryingSink::new(FlakyStore::new(2), RetryPolicy::new(5, 10, 1000));
    let r = sink.record(PartitionId::new(7), Ok(()));
    assert_eq!(r, Ok(()));
    assert_eq!(sink.store().stored(), vec![(PartitionId::new(7), true)]);
    assert_eq!(sink.store().paused(), vec![10, 20]);
}

#[test]
fn sink_gives_up_after_budget() {
    let mut sink = RetryingSink::new(FlakyStore::new(3), RetryPolicy::new(3, 10, 1000));
    let r = sink.record(PartitionId::new(7), Err("boom".to_string()));
    assert_eq!(r, Err(SinkError::GaveUp { attempts: 3 }));
    assert!(sink.store().stored().is_empty());
    assert_eq!(sink.store().paused(), vec![10, 20]);
}

#[test]
fn sink_records_failure_outcome() {
    let mut sink = RetryingSink::new(FlakyStore::new(0), RetryPolicy::new(1, 10, 1000));
    assert_eq!(sink.record(PartitionId::new(3), Err("boom".to_string())), Ok(()));
    assert_eq!(sink.record(PartitionId::new(4), Ok(())), Ok(()));
    assert_eq!(
        sink.store().stored(),
        vec![(PartitionId::new(3), false), (PartitionId::new(4), true)]
    );
    assert!(sink.store().paused().is_empty());
}

#[test]
fn sink_zero_attempts_still_tries_once() {
    let mut sink = RetryingSink::new(FlakyStore::new(0), RetryPolicy::new(0, 10, 1000));
    assert_eq!(sink.record(PartitionId::new(3), Ok(())), Ok(()));
    let mut sink = RetryingSink::new(FlakyStore::new(1), RetryPolicy::new(0, 10, 1000));
    assert_eq!(sink.record(PartitionId::new(3), Ok(())), Err(SinkError::GaveUp { attempts: 1 }));
}

#[test]
fn backoff_doubles_up_to_cap() {
    let policy = RetryPolicy::new(10, 100, 1000);
    assert_eq!(policy.backoff_ms(0), 100);
    assert_eq!(policy.backoff_ms(1), 200);
    assert_eq!(policy.backoff_ms(3), 800);
    assert_eq!(policy.backoff_ms(4), 1000);
    assert_eq!(policy.backoff_ms(30), 1000);
    let capped = RetryPolicy::new(10, 5000, 1000);
    assert_eq!(capped.backoff_ms(0), 1000);
    let huge = RetryPolicy::new(10, u64::MAX / 2 + 1, u64::MAX);
    assert_eq!(huge.backoff_ms(1), u64::MAX);
}

#[test]
fn next_step_decisions() {
    let policy = RetryPolicy::new(3, 100, 1000);
    assert_eq!(policy.next_step(0, true), RetryStep::Done);
    assert_eq!(policy.next_step(0, false), RetryStep::Wait(100));
    assert_eq!(policy.next_step(1, false), RetryStep::Wait(200));
    assert_eq!(policy.next_step(2, false), RetryStep::GiveUp);
    assert_eq!(policy.next_step(2, true), RetryStep::Done);
}

#[test]
fn flaky_store_fails_then_accepts() {
    let mut store = FlakyStore::new(1);
    assert!(store.try_record(PartitionId::new(1), true).is_err());
    assert!(store.stored().is_empty());
    assert!(store.try_record(PartitionId::new(1), true).is_ok());
    assert_eq!(store.stored(), vec![(PartitionId::new(1), true)]);
}
