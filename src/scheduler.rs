use vstd::prelude::*;

use crate::data::{
    params_to_file, with_level, CompactionJob, CompactionLevel, ParquetFile, ParquetFileId,
    ParquetFileParams, PartitionId,
};

verus! {

/// An atomic delta to one partition's file set.
#[derive(Clone, Debug)]
pub struct CommitUpdate {
    pub partition_id: PartitionId,
    /// Files superseded by the rewrite.
    pub delete: Vec<ParquetFile>,
    /// Files whose level changes without a rewrite.
    pub upgrade: Vec<ParquetFile>,
    /// Files produced by the rewrite, not yet registered.
    pub create: Vec<ParquetFileParams>,
    /// The level of both upgraded and newly created files.
    pub target_level: CompactionLevel,
}

/// The update changes something, every file of it belongs to its partition,
/// no file is both deleted and upgraded, and no upgrade lowers a file's level.
pub open spec fn update_well_formed(
    partition_id: PartitionId,
    delete: Seq<ParquetFile>,
    upgrade: Seq<ParquetFile>,
    create: Seq<ParquetFileParams>,
    target_level: CompactionLevel,
) -> bool {
    &&& !(delete.len() == 0 && upgrade.len() == 0 && create.len() == 0)
    &&& forall|k: int| 0 <= k < delete.len() ==> (#[trigger] delete[k]).partition_id == partition_id
    &&& forall|k: int|
        0 <= k < upgrade.len() ==> (#[trigger] upgrade[k]).partition_id == partition_id
    &&& forall|k: int| 0 <= k < create.len() ==> (#[trigger] create[k]).partition_id == partition_id
    &&& forall|a: int, b: int|
        0 <= a < delete.len() && 0 <= b < upgrade.len() ==> (#[trigger] delete[a]).id
            != (#[trigger] upgrade[b]).id
    &&& forall|k: int|
        0 <= k < upgrade.len() ==> (#[trigger] upgrade[k]).compaction_level.rank()
            <= target_level.rank()
}

impl CommitUpdate {
    pub open spec fn well_formed(&self) -> bool {
        update_well_formed(
            self.partition_id,
            self.delete@,
            self.upgrade@,
            self.create@,
            self.target_level,
        )
    }

    pub fn new(
        partition_id: PartitionId,
        delete: Vec<ParquetFile>,
        upgrade: Vec<ParquetFile>,
        create: Vec<ParquetFileParams>,
        target_level: CompactionLevel,
    ) -> (r: CommitUpdate)
        requires
            update_well_formed(partition_id, delete@, upgrade@, create@, target_level),
        ensures
            r.partition_id == partition_id,
            r.delete@ == delete@,
            r.upgrade@ == upgrade@,
            r.create@ == create@,
            r.target_level == target_level,
            r.well_formed(),
    {
        CommitUpdate { partition_id, delete, upgrade, create, target_level }
    }
}

/// The file with identifier `id` is deleted or upgraded by an update.
pub open spec fn replaced_by(
    delete: Seq<ParquetFile>,
    upgrade: Seq<ParquetFile>,
    id: ParquetFileId,
) -> bool {
    (exists|k: int| 0 <= k < delete.len() && (#[trigger] delete[k]).id == id) || (exists|k: int|
        0 <= k < upgrade.len() && (#[trigger] upgrade[k]).id == id)
}

/// Whether an update leaves a file of the catalog as it is.
pub open spec fn kept_by(delete: Seq<ParquetFile>, upgrade: Seq<ParquetFile>) -> spec_fn(
    ParquetFile,
) -> bool {
    |f: ParquetFile| !replaced_by(delete, upgrade, f.id)
}

/// The upgraded files, in order, at their new level.
pub open spec fn upgraded_files(upgrade: Seq<ParquetFile>, level: CompactionLevel) -> Seq<
    ParquetFile,
> {
    Seq::new(upgrade.len(), |k: int| with_level(upgrade[k], level))
}

/// The created files, in order, under the identifiers the catalog gave them.
pub open spec fn created_files(
    create: Seq<ParquetFileParams>,
    ids: Seq<ParquetFileId>,
    level: CompactionLevel,
) -> Seq<ParquetFile> {
    Seq::new(create.len(), |k: int| with_level(params_to_file(create[k], ids[k]), level))
}

/// The catalog after an update: the files it leaves alone, then the upgraded
/// files, then the created ones.
pub open spec fn committed(
    files: Seq<ParquetFile>,
    delete: Seq<ParquetFile>,
    upgrade: Seq<ParquetFile>,
    create: Seq<ParquetFileParams>,
    target_level: CompactionLevel,
    ids: Seq<ParquetFileId>,
) -> Seq<ParquetFile> {
    files.filter(kept_by(delete, upgrade)) + upgraded_files(upgrade, target_level) + created_files(
        create,
        ids,
        target_level,
    )
}

/// No identifier of `ids` is one of `files`, and no two are equal.
pub open spec fn fresh_ids(files: Seq<ParquetFile>, ids: Seq<ParquetFileId>) -> bool {
    &&& forall|k: int, i: int|
        0 <= k < ids.len() && 0 <= i < files.len() ==> #[trigger] ids[k] != (#[trigger] files[i]).id
    &&& forall|a: int, b: int| 0 <= a < b < ids.len() ==> #[trigger] ids[a] != #[trigger] ids[b]
}

/// What a job reports to the scheduler.
#[derive(Clone, Debug)]
pub enum CompactionJobStatusVariant {
    /// Apply a commit update.
    Update(CommitUpdate),
    /// The job failed with the given message.
    Error(String),
}

#[derive(Clone, Debug)]
pub struct CompactionJobStatus {
    pub job: CompactionJob,
    pub status: CompactionJobStatusVariant,
}

/// The scheduler's answer to a status update.
#[derive(Clone, Debug)]
pub enum CompactionJobStatusResponse {
    /// A commit update was applied; identifiers of the created files, in order.
    CreatedParquetFiles(Vec<ParquetFileId>),
    /// A status update that created no files.
    Ack,
}

/// Why the scheduler could not apply a status update.
#[derive(Clone, Copy, Debug, PartialEq, Eq, Structural)]
pub enum SchedulerError {
    /// No identifiers are left for the files to create.
    IdsExhausted,
    /// The catalog could not be reached.
    Unavailable,
}

/// Owns the authoritative catalog and applies each commit update as one
/// transaction.
pub trait Scheduler {
    /// The internal invariant of the scheduler.
    spec fn inv(&self) -> bool;

    /// The files that the catalog holds.
    spec fn catalog(&self) -> Seq<ParquetFile>;

    /// The scheduler is sure to apply an update that deletes `delete`,
    /// upgrades `upgrade` and creates `create`. A scheduler that promises
    /// nothing leaves this false.
    spec fn accepts(
        &self,
        delete: Seq<ParquetFile>,
        upgrade: Seq<ParquetFile>,
        create: Seq<ParquetFileParams>,
    ) -> bool;

    /// An update may fail with error `e`. A scheduler that promises nothing
    /// makes this true of every error.
    spec fn may_fail_with(&self, e: SchedulerError) -> bool;

    /// A commit update is either applied whole, answered with the identifiers of
    /// the created files in order, or not applied at all; `Ack` never answers
    /// one.
    fn update_job_status(&mut self, status: CompactionJobStatus) -> (r: Result<
        CompactionJobStatusResponse,
        SchedulerError,
    >)
        requires
            old(self).inv(),
            status.status matches CompactionJobStatusVariant::Update(u) ==> u.well_formed(),
        ensures
            final(self).inv(),
            match status.status {
                CompactionJobStatusVariant::Update(u) => (old(self).accepts(
                    u.delete@,
                    u.upgrade@,
                    u.create@,
                ) ==> r is Ok) && (match r {
                    Ok(CompactionJobStatusResponse::CreatedParquetFiles(ids)) => {
                        &&& ids@.len() == u.create@.len()
                        &&& fresh_ids(old(self).catalog(), ids@)
                        &&& final(self).catalog() == committed(
                            old(self).catalog(),
                            u.delete@,
                            u.upgrade@,
                            u.create@,
                            u.target_level,
                            ids@,
                        )
                    },
                    Ok(CompactionJobStatusResponse::Ack) => false,
                    Err(e) => final(self).catalog() == old(self).catalog() && old(
                        self,
                    ).may_fail_with(e),
                }),
                CompactionJobStatusVariant::Error(_) => {
                    &&& final(self).catalog() == old(self).catalog()
                    &&& (r matches Ok(resp) ==> resp matches CompactionJobStatusResponse::Ack)
                },
            },
    ;
}

} // verus!
