use compactor::{
    CompactionJob, CompactionJobStatus, CompactionJobStatusResponse, CompactionJobStatusVariant,
    Scheduler,
};
use compactor::{
    finish_partition, plan_partition, CommitToScheduler, CompactionLevel, FilesSplit, FlakyStore,
    JobError, LocalScheduler, NonOverlapSplit, ParquetFile, ParquetFileId, ParquetFileParams,
    PartitionId, RetryPolicy, RetryingSink, SchedulerError,
};

fn params(partition: i64, min_time: i64, max_time: i64) -> ParquetFileParams {
    ParquetFileParams {
        partition_id: PartitionId::new(partition),
        compaction_level: CompactionLevel::FileNonOverlapped,
        min_time,
        max_time,
        file_size_bytes: 100,
        row_count: 10,
    }
}

fn sink() -> RetryingSink<FlakyStore> {
    RetryingSink::new(FlakyStore::new(0), RetryPolicy::new(3, 10, 100))
}

#[test]
fn end_to_end_scenario() {
    let a = ParquetFile::new(1, 1, CompactionLevel::Initial, 0, 10);
    let b = ParquetFile::new(2, 1, CompactionLevel::Initial, 5, 15);
    let c = ParquetFile::new(3, 1, CompactionLevel::Initial, 20, 30);
    let other = ParquetFile::new(4, 2, CompactionLevel::Initial, 0, 100);
    let mut committer = CommitToScheduler::new(LocalScheduler::new(vec![a, b, c, other]));
    let partition = PartitionId::new(1);

    let (rewrite, promote) =
        NonOverlapSplit::new().apply(vec![a, b, c], CompactionLevel::FileNonOverlapped);
    assert_eq!(rewrite, vec![a, b]);
    assert_eq!(promote, vec![c]);

    let d = params(1, 0, 15);
    let ids = committer
        .commit(partition, &rewrite, &promote, &[d], CompactionLevel::FileNonOverlapped)
        .unwrap();
    assert_eq!(ids.len(), 1);
    assert!(ids[0].get() > 4);

    let files = committer.scheduler().files();
    let in_partition: Vec<ParquetFile> = files.iter().copied().filter(|f| f.partition_id == partition).collect();
    assert_eq!(in_partition.len(), 2);
    assert_eq!(in_partition[0], c.upgraded(CompactionLevel::FileNonOverlapped));
    assert_eq!(in_partition[1], d.into_file(ids[0]));
    assert_eq!(in_partition[1].compaction_level, CompactionLevel::FileNonOverlapped);
    // the other partition is untouched
    assert!(files.contains(&other));
}

#[test]
fn commit_ids_follow_create_order() {
    let a = ParquetFile::new(10, 5, CompactionLevel::Initial, 0, 10);
    let mut committer = CommitToScheduler::new(LocalScheduler::new(vec![a]));
    let create = [params(5, 0, 3), params(5, 4, 7), params(5, 8, 10)];
    let ids = committer
        .commit(PartitionId::new(5), &[a], &[], &create, CompactionLevel::Final)
        .unwrap();
    assert_eq!(ids, vec![ParquetFileId::new(11), ParquetFileId::new(12), ParquetFileId::new(13)]);
    let files = committer.scheduler().files();
    assert_eq!(files.len(), 3);
    for (k, f) in files.iter().enumerate() {
        assert_eq!(f.id, ids[k]);
        assert_eq!(f.min_time, create[k].min_time);
        assert_eq!(f.compaction_level, CompactionLevel::Final);
    }
}

#[test]
fn commit_with_no_identifiers_left_changes_nothing() {
    let a = ParquetFile::new(i64::MAX, 5, CompactionLevel::Initial, 0, 10);
    let mut committer = CommitToScheduler::new(LocalScheduler::new(vec![a]));
    let r = committer.commit(PartitionId::new(5), &[a], &[], &[params(5, 0, 10)], CompactionLevel::Final);
    assert_eq!(r, Err(SchedulerError::IdsExhausted));
    assert_eq!(committer.scheduler().files(), vec![a]);
}

#[test]
fn commit_upgrade_only_keeps_identifiers() {
    let a = ParquetFile::new(3, 5, CompactionLevel::Initial, 0, 10);
    let mut committer = CommitToScheduler::new(LocalScheduler::new(vec![a]));
    let ids = committer
        .commit(PartitionId::new(5), &[], &[a], &[], CompactionLevel::FileNonOverlapped)
        .unwrap();
    assert!(ids.is_empty());
    let files = committer.scheduler().files();
    assert_eq!(files, vec![a.upgraded(CompactionLevel::FileNonOverlapped)]);
    assert_eq!(files[0].id.get(), 3);
}

#[test]
fn empty_partition_records_success_without_commit() {
    let other = ParquetFile::new(4, 2, CompactionLevel::Initial, 0, 100);
    let mut committer = CommitToScheduler::new(LocalScheduler::new(vec![other]));
    let mut sink = sink();
    let plan = plan_partition(
        &NonOverlapSplit::new(),
        PartitionId::new(1),
        vec![],
        CompactionLevel::FileNonOverlapped,
    );
    assert!(plan.must_rewrite.is_empty());
    assert!(plan.can_promote.is_empty());
    let (outcome, recorded) = finish_partition(&mut committer, &mut sink, &plan, Ok(vec![]));
    assert_eq!(outcome, Ok(vec![]));
    assert_eq!(recorded, Ok(()));
    assert_eq!(committer.scheduler().files(), vec![other]);
    assert_eq!(sink.store().stored(), vec![(PartitionId::new(1), true)]);
}

#[test]
fn job_success_is_recorded_once() {
    let a = ParquetFile::new(1, 1, CompactionLevel::Initial, 0, 10);
    let b = ParquetFile::new(2, 1, CompactionLevel::Initial, 5, 15);
    let mut committer = CommitToScheduler::new(LocalScheduler::new(vec![a, b]));
    let mut sink = sink();
    let plan = plan_partition(
        &NonOverlapSplit::new(),
        PartitionId::new(1),
        vec![a, b],
        CompactionLevel::FileNonOverlapped,
    );
    let (outcome, recorded) =
        finish_partition(&mut committer, &mut sink, &plan, Ok(vec![params(1, 0, 15)]));
    assert_eq!(outcome, Ok(vec![ParquetFileId::new(3)]));
    assert_eq!(recorded, Ok(()));
    assert_eq!(sink.store().stored(), vec![(PartitionId::new(1), true)]);
    assert_eq!(committer.scheduler().files().len(), 1);
}

#[test]
fn job_rewrite_failure_is_recorded_once() {
    let a = ParquetFile::new(1, 1, CompactionLevel::Initial, 0, 10);
    let b = ParquetFile::new(2, 1, CompactionLevel::Initial, 5, 15);
    let mut committer = CommitToScheduler::new(LocalScheduler::new(vec![a, b]));
    let mut sink = sink();
    let plan = plan_partition(
        &NonOverlapSplit::new(),
        PartitionId::new(1),
        vec![a, b],
        CompactionLevel::FileNonOverlapped,
    );
    let (outcome, recorded) =
        finish_partition(&mut committer, &mut sink, &plan, Err("disk full".to_string()));
    assert_eq!(outcome, Err(JobError::Rewrite));
    assert_eq!(recorded, Ok(()));
    assert_eq!(sink.store().stored(), vec![(PartitionId::new(1), false)]);
    assert_eq!(committer.scheduler().files(), vec![a, b]);
}

#[test]
fn job_with_foreign_output_is_recorded_as_failure() {
    let a = ParquetFile::new(1, 1, CompactionLevel::Initial, 0, 10);
    let b = ParquetFile::new(2, 1, CompactionLevel::Initial, 5, 15);
    let mut committer = CommitToScheduler::new(LocalScheduler::new(vec![a, b]));
    let mut sink = sink();
    let plan = plan_partition(
        &NonOverlapSplit::new(),
        PartitionId::new(1),
        vec![a, b],
        CompactionLevel::FileNonOverlapped,
    );
    let (outcome, recorded) =
        finish_partition(&mut committer, &mut sink, &plan, Ok(vec![params(2, 0, 15)]));
    assert_eq!(outcome, Err(JobError::InvalidUpdate));
    assert_eq!(recorded, Ok(()));
    assert_eq!(sink.store().stored(), vec![(PartitionId::new(1), false)]);
    assert_eq!(committer.scheduler().files(), vec![a, b]);
}

#[test]
fn job_commit_failure_is_recorded_once() {
    let a = ParquetFile::new(1, 1, CompactionLevel::Initial, 0, 10);
    let b = ParquetFile::new(i64::MAX, 1, CompactionLevel::Initial, 5, 15);
    let mut committer = CommitToScheduler::new(LocalScheduler::new(vec![a, b]));
    let mut sink = sink();
    let plan = plan_partition(
        &NonOverlapSplit::new(),
        PartitionId::new(1),
        vec![a, b],
        CompactionLevel::FileNonOverlapped,
    );
    let (outcome, recorded) =
        finish_partition(&mut committer, &mut sink, &plan, Ok(vec![params(1, 0, 15)]));
    assert_eq!(outcome, Err(JobError::Commit(SchedulerError::IdsExhausted)));
    assert_eq!(recorded, Ok(()));
    assert_eq!(sink.store().stored(), vec![(PartitionId::new(1), false)]);
}

#[test]
fn committer_display() {
    let committer = CommitToScheduler::new(LocalScheduler::new(vec![]));
    assert_eq!(committer.to_string(), "CommitToScheduler");
}

#[test]
fn local_scheduler_acks_error_status() {
    let a = ParquetFile::new(1, 1, CompactionLevel::Initial, 0, 10);
    let mut scheduler = LocalScheduler::new(vec![a]);
    let r = scheduler.update_job_status(CompactionJobStatus {
        job: CompactionJob::new(PartitionId::new(1)),
        status: CompactionJobStatusVariant::Error("boom".to_string()),
    });
    assert!(matches!(r, Ok(CompactionJobStatusResponse::Ack)));
    assert_eq!(scheduler.files(), vec![a]);
}

#[test]
fn job_that_would_lower_a_level_is_invalid() {
    let a = ParquetFile::new(1, 1, CompactionLevel::Final, 0, 10);
    let mut committer = CommitToScheduler::new(LocalScheduler::new(vec![a]));
    let mut sink = sink();
    let plan = plan_partition(
        &NonOverlapSplit::new(),
        PartitionId::new(1),
        vec![a],
        CompactionLevel::FileNonOverlapped,
    );
    assert_eq!(plan.can_promote, vec![a]);
    let (outcome, recorded) = finish_partition(&mut committer, &mut sink, &plan, Ok(vec![]));
    assert_eq!(outcome, Err(JobError::InvalidUpdate));
    assert_eq!(recorded, Ok(()));
    assert_eq!(sink.store().stored(), vec![(PartitionId::new(1), false)]);
    assert_eq!(committer.scheduler().files(), vec![a]);
}
