use vstd::prelude::*;

use crate::commit::CommitToScheduler;
use crate::data::{CompactionLevel, ParquetFile, ParquetFileId, ParquetFileParams, PartitionId};
use crate::files_split::FilesSplit;
use crate::partition_done_sink::{PartitionDoneSink, SinkError};
use crate::scheduler::{committed, fresh_ids, update_well_formed, Scheduler, SchedulerError};

verus! {

/// A partition's files, split for one compaction job.
#[derive(Clone, Debug)]
pub struct CompactionPlan {
    pub partition_id: PartitionId,
    /// Files that are merged by the rewrite and then deleted.
    pub must_rewrite: Vec<ParquetFile>,
    /// Files upgraded in place to the target level.
    pub can_promote: Vec<ParquetFile>,
    pub target_level: CompactionLevel,
}

impl CompactionPlan {
    /// The plan touches no file, so nothing is to be committed.
    pub open spec fn is_empty(&self) -> bool {
        self.must_rewrite@.len() == 0 && self.can_promote@.len() == 0
    }
}

/// Why a partition's job failed.
#[derive(Clone, Copy, Debug, PartialEq, Eq, Structural)]
pub enum JobError {
    /// The rewrite of the files failed.
    Rewrite,
    /// The files to delete, upgrade or create do not form a valid update.
    InvalidUpdate,
    /// The scheduler did not apply the commit.
    Commit(SchedulerError),
}

/// Splits `files` of `partition_id` with `split` for `target_level`.
pub fn plan_partition<F: FilesSplit>(
    split: &F,
    partition_id: PartitionId,
    files: Vec<ParquetFile>,
    target_level: CompactionLevel,
) -> (r: CompactionPlan)
    ensures
        r.partition_id == partition_id,
        r.target_level == target_level,
        (r.must_rewrite@, r.can_promote@) == split.split(files@, target_level),
        r.must_rewrite@.to_multiset().add(r.can_promote@.to_multiset()) == files@.to_multiset(),
{
    let (must_rewrite, can_promote) = split.apply(files, target_level);
    CompactionPlan { partition_id, must_rewrite, can_promote, target_level }
}

/// Whether the files form a valid update of `partition_id`.
fn is_valid_update(
    partition_id: PartitionId,
    delete: &Vec<ParquetFile>,
    upgrade: &Vec<ParquetFile>,
    create: &Vec<ParquetFileParams>,
    target_level: CompactionLevel,
) -> (r: bool)
    ensures
        r == update_well_formed(partition_id, delete@, upgrade@, create@, target_level),
{
    if delete.len() == 0 && upgrade.len() == 0 && create.len() == 0 {
        return false;
    }
    let mut a: usize = 0;
    while a < delete.len()
        invariant
            a <= delete.len(),
            forall|k: int| 0 <= k < a ==> (#[trigger] delete@[k]).partition_id == partition_id,
            forall|x: int, y: int|
                0 <= x < a && 0 <= y < upgrade.len() ==> (#[trigger] delete@[x]).id != (
                #[trigger] upgrade@[y]).id,
        decreases delete.len() - a,
    {
        if delete[a].partition_id.id != partition_id.id {
            return false;
        }
        let mut b: usize = 0;
        while b < upgrade.len()
            invariant
                a < delete.len(),
                b <= upgrade.len(),
                forall|y: int| 0 <= y < b ==> delete@[a as int].id != (#[trigger] upgrade@[y]).id,
            decreases upgrade.len() - b,
        {
            if delete[a].id.id == upgrade[b].id.id {
                return false;
            }
            b += 1;
        }
        a += 1;
    }
    let mut b: usize = 0;
    while b < upgrade.len()
        invariant
            b <= upgrade.len(),
            forall|k: int| 0 <= k < b ==> (#[trigger] upgrade@[k]).partition_id == partition_id,
            forall|k: int|
                0 <= k < b ==> (#[trigger] upgrade@[k]).compaction_level.rank()
                    <= target_level.rank(),
        decreases upgrade.len() - b,
    {
        if upgrade[b].partition_id.id != partition_id.id {
            return false;
        }
        if upgrade[b].compaction_level.get() > target_level.get() {
            return false;
        }
        b += 1;
    }
    let mut c: usize = 0;
    while c < create.len()
        invariant
            c <= create.len(),
            forall|k: int| 0 <= k < c ==> (#[trigger] create@[k]).partition_id == partition_id,
        decreases create.len() - c,
    {
        if create[c].partition_id.id != partition_id.id {
            return false;
        }
        c += 1;
    }
    true
}

/// Ends a partition's job once the rewrite of `plan.must_rewrite` has given
/// `rewritten`. An empty plan commits nothing and succeeds. Otherwise, where
/// the rewrite succeeded and the update is valid, one commit deletes the
/// rewritten files, upgrades the promoted ones and registers the new files.
/// Whatever happened, the outcome is handed to `sink` exactly once: its record
/// grows by one entry for the partition, marked a success exactly when the job
/// succeeded, unless the sink itself failed.
pub fn finish_partition<S: Scheduler, K: PartitionDoneSink>(
    committer: &mut CommitToScheduler<S>,
    sink: &mut K,
    plan: &CompactionPlan,
    rewritten: Result<Vec<ParquetFileParams>, String>,
) -> (r: (Result<Vec<ParquetFileId>, JobError>, Result<(), SinkError>))
    requires
        old(committer).inv(),
    ensures
        final(committer).inv(),
        r.1 is Ok ==> final(sink).recorded() == old(sink).recorded().push(
            (plan.partition_id, r.0 is Ok),
        ),
        r.1 is Err ==> final(sink).recorded() == old(sink).recorded(),
        plan.is_empty() ==> (r.0 matches Ok(ids) && ids@.len() == 0),
        plan.is_empty() ==> final(committer).catalog() == old(committer).catalog(),
        !plan.is_empty() && rewritten is Err ==> r.0 == Err::<Vec<ParquetFileId>, JobError>(
            JobError::Rewrite,
        ) && final(committer).catalog() == old(committer).catalog(),
        match rewritten {
            Ok(create) => !plan.is_empty() ==> (r.0 == Err::<Vec<ParquetFileId>, JobError>(
                JobError::InvalidUpdate,
            ) <==> !update_well_formed(
                plan.partition_id,
                plan.must_rewrite@,
                plan.can_promote@,
                create@,
                plan.target_level,
            )),
            Err(_) => true,
        },
        match rewritten {
            Ok(create) => (!plan.is_empty() && update_well_formed(
                plan.partition_id,
                plan.must_rewrite@,
                plan.can_promote@,
                create@,
                plan.target_level,
            ) && old(committer).scheduler_view().accepts(
                plan.must_rewrite@,
                plan.can_promote@,
                create@,
            )) ==> r.0 is Ok,
            Err(_) => true,
        },
        r.0 matches Err(JobError::Commit(e)) ==> old(committer).scheduler_view().may_fail_with(e),
        match (r.0, rewritten) {
            (Ok(ids), Ok(create)) => plan.is_empty() || {
                &&& ids@.len() == create@.len()
                &&& fresh_ids(old(committer).catalog(), ids@)
                &&& final(committer).catalog() == committed(
                    old(committer).catalog(),
                    plan.must_rewrite@,
                    plan.can_promote@,
                    create@,
                    plan.target_level,
                    ids@,
                )
            },
            (Err(_), _) => final(committer).catalog() == old(committer).catalog(),
            _ => true,
        },
{
    let outcome: Result<Vec<ParquetFileId>, JobError> = if plan.must_rewrite.len() == 0
        && plan.can_promote.len() == 0 {
        Ok(Vec::new())
    } else {
        match &rewritten {
            Err(_) => Err(JobError::Rewrite),
            Ok(create) => {
                if !is_valid_update(
                    plan.partition_id,
                    &plan.must_rewrite,
                    &plan.can_promote,
                    create,
                    plan.target_level,
                ) {
                    Err(JobError::InvalidUpdate)
                } else {
                    match committer.commit(
                        plan.partition_id,
                        plan.must_rewrite.as_slice(),
                        plan.can_promote.as_slice(),
                        create.as_slice(),
                        plan.target_level,
                    ) {
                        Ok(ids) => Ok(ids),
                        Err(e) => Err(JobError::Commit(e)),
                    }
                }
            },
        }
    };
    let recorded = match &outcome {
        Ok(_) => sink.record(plan.partition_id, Ok(())),
        Err(_) => match rewritten {
            Err(msg) => sink.record(plan.partition_id, Err(msg)),
            Ok(_) => sink.record(plan.partition_id, Err(String::from_str("compaction failed"))),
        },
    };
    (outcome, recorded)
}

} // verus!
