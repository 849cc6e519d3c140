use vstd::prelude::*;
use vstd::string::*;
use vstd::slice::slice_to_vec;

use crate::data::{params_to_file, with_level, CompactionJob, CompactionLevel, ParquetFile, ParquetFileId, ParquetFileParams, PartitionId};
use crate::scheduler::{
    committed, created_files, fresh_ids, kept_by, replaced_by, update_well_formed, upgraded_files, CommitUpdate, CompactionJobStatus,
    CompactionJobStatusResponse, CompactionJobStatusVariant, Scheduler, SchedulerError,
};

verus! {

/// Commits the outcome of a partition's compaction through a scheduler.
#[derive(Debug)]
pub struct CommitToScheduler<S: Scheduler> {
    scheduler: S,
}

impl<S: Scheduler> CommitToScheduler<S> {
    /// The scheduler's invariant.
    pub closed spec fn inv(&self) -> bool {
        self.scheduler.inv()
    }

    /// The files of the scheduler's catalog.
    pub closed spec fn catalog(&self) -> Seq<ParquetFile> {
        self.scheduler.catalog()
    }

    /// The scheduler that commits go through.
    pub closed spec fn scheduler_view(&self) -> S {
        self.scheduler
    }

    pub fn new(scheduler: S) -> (r: CommitToScheduler<S>)
        ensures
            r.scheduler_view() == scheduler,
            r.inv() == scheduler.inv(),
            r.catalog() == scheduler.catalog(),
    {
        CommitToScheduler { scheduler }
    }

    /// A human-readable name of the committer.
    pub fn to_string(&self) -> (r: String)
        ensures
            r@ == "CommitToScheduler"@,
    {
        String::from_str("CommitToScheduler")
    }

    /// The scheduler that commits go through.
    pub fn scheduler(&self) -> (r: &S)
        ensures
            r.inv() == self.inv(),
            r.catalog() == self.catalog(),
            *r == self.scheduler_view(),
    {
        &self.scheduler
    }

    /// Submits one update that deletes `delete`, moves `upgrade` to
    /// `target_level` and registers `create` at `target_level`. On success the
    /// catalog has taken the whole update and the result holds the identifiers
    /// of the created files, in the order of `create`; on failure the catalog is
    /// unchanged. Where the scheduler accepts the update, it succeeds. Nothing
    /// is retried.
    pub fn commit(
        &mut self,
        partition_id: PartitionId,
        delete: &[ParquetFile],
        upgrade: &[ParquetFile],
        create: &[ParquetFileParams],
        target_level: CompactionLevel,
    ) -> (r: Result<Vec<ParquetFileId>, SchedulerError>)
        requires
            old(self).inv(),
            update_well_formed(partition_id, delete@, upgrade@, create@, target_level),
        ensures
            final(self).inv(),
            old(self).scheduler_view().accepts(delete@, upgrade@, create@) ==> r is Ok,
            match r {
                Ok(ids) => {
                    &&& ids@.len() == create@.len()
                    &&& fresh_ids(old(self).catalog(), ids@)
                    &&& final(self).catalog() == committed(
                        old(self).catalog(),
                        delete@,
                        upgrade@,
                        create@,
                        target_level,
                        ids@,
                    )
                },
                Err(e) => final(self).catalog() == old(self).catalog() && old(
                    self,
                ).scheduler_view().may_fail_with(e),
            },
    {
        let update = CommitUpdate::new(
            partition_id,
            slice_to_vec(delete),
            slice_to_vec(upgrade),
            slice_to_vec(create),
            target_level,
        );
        let status = CompactionJobStatus {
            job: CompactionJob::new(partition_id),
            status: CompactionJobStatusVariant::Update(update),
        };
        match self.scheduler.update_job_status(status) {
            Ok(CompactionJobStatusResponse::CreatedParquetFiles(ids)) => Ok(ids),
            Ok(CompactionJobStatusResponse::Ack) => vstd::pervasive::unreached(),
            Err(e) => Err(e),
        }
    }
}

/// The files of partition `p` in `files`.
pub open spec fn partition_files(files: Seq<ParquetFile>, p: PartitionId) -> Set<ParquetFile> {
    Set::new(|f: ParquetFile| files.contains(f) && f.partition_id == p)
}

/// No two files of the catalog share an identifier.
pub open spec fn unique_ids(files: Seq<ParquetFile>) -> bool {
    forall|i: int, j: int|
        0 <= i < files.len() && 0 <= j < files.len() && (#[trigger] files[i]).id == (
        #[trigger] files[j]).id ==> i == j
}

/// After a commit for partition `p`, the partition's files are its files before
/// less those deleted or upgraded, together with the upgraded files at their new
/// level and the created files under their new identifiers. Where catalog
/// identifiers are unique and the deleted and upgraded files are in the
/// catalog, the files of every other partition are as they were.
pub proof fn lemma_commit_file_set(
    files: Seq<ParquetFile>,
    p: PartitionId,
    delete: Seq<ParquetFile>,
    upgrade: Seq<ParquetFile>,
    create: Seq<ParquetFileParams>,
    target_level: CompactionLevel,
    ids: Seq<ParquetFileId>,
    q: PartitionId,
)
    requires
        update_well_formed(p, delete, upgrade, create, target_level),
        ids.len() == create.len(),
    ensures
        partition_files(committed(files, delete, upgrade, create, target_level, ids), p)
            == partition_files(files, p).filter(|f: ParquetFile| !replaced_by(delete, upgrade, f.id))
            + upgraded_files(upgrade, target_level).to_set() + created_files(
            create,
            ids,
            target_level,
        ).to_set(),
        (q != p && unique_ids(files) && (forall|k: int|
            0 <= k < delete.len() ==> files.contains(#[trigger] delete[k])) && (forall|k: int|
            0 <= k < upgrade.len() ==> files.contains(#[trigger] upgrade[k]))) ==> partition_files(
            committed(files, delete, upgrade, create, target_level, ids),
            q,
        ) == partition_files(files, q),
{
    broadcast use vstd::seq_lib::group_filter_ensures;

    let pred = kept_by(delete, upgrade);
    let a = files.filter(pred);
    let b = upgraded_files(upgrade, target_level);
    let c = created_files(create, ids, target_level);
    let all = committed(files, delete, upgrade, create, target_level, ids);
    assert forall|x: ParquetFile| all.contains(x) <==> a.contains(x) || b.contains(x) || c.contains(
        x,
    ) by {
        if all.contains(x) {
            let i = choose|i: int| 0 <= i < all.len() && all[i] == x;
            if i < a.len() {
                assert(a[i] == x);
            } else if i < a.len() + b.len() {
                assert(b[i - a.len()] == x);
            } else {
                assert(c[i - a.len() - b.len()] == x);
            }
        }
        if a.contains(x) {
            let i = choose|i: int| 0 <= i < a.len() && a[i] == x;
            assert(all[i] == x);
        }
        if b.contains(x) {
            let i = choose|i: int| 0 <= i < b.len() && b[i] == x;
            assert(all[a.len() + i] == x);
        }
        if c.contains(x) {
            let i = choose|i: int| 0 <= i < c.len() && c[i] == x;
            assert(all[a.len() + b.len() + i] == x);
        }
    }
    assert forall|x: ParquetFile| a.contains(x) <==> files.contains(x) && pred(x) by {
        if files.contains(x) && pred(x) {
            let i = choose|i: int| 0 <= i < files.len() && files[i] == x;
            files.lemma_filter_contains(pred, i);
        }
        if a.contains(x) {
            files.lemma_filter_contains_rev(pred, x);
            let i = choose|i: int| 0 <= i < a.len() && a[i] == x;
            assert(pred(a[i]));
        }
    }
    assert forall|x: ParquetFile| b.contains(x) ==> x.partition_id == p by {
        if b.contains(x) {
            let i = choose|i: int| 0 <= i < b.len() && b[i] == x;
            assert(upgrade[i].partition_id == p);
        }
    }
    assert forall|x: ParquetFile| c.contains(x) ==> x.partition_id == p by {
        if c.contains(x) {
            let i = choose|i: int| 0 <= i < c.len() && c[i] == x;
            assert(create[i].partition_id == p);
        }
    }
    assert(partition_files(all, p) =~= partition_files(files, p).filter(
        |f: ParquetFile| !replaced_by(delete, upgrade, f.id),
    ) + b.to_set() + c.to_set());
    if q != p && unique_ids(files) && (forall|k: int|
        0 <= k < delete.len() ==> files.contains(#[trigger] delete[k])) && (forall|k: int|
        0 <= k < upgrade.len() ==> files.contains(#[trigger] upgrade[k])) {
        assert forall|x: ParquetFile| files.contains(x) && x.partition_id == q implies pred(x) by {
            if !pred(x) {
                if exists|k: int| 0 <= k < delete.len() && (#[trigger] delete[k]).id == x.id {
                    let k = choose|k: int| 0 <= k < delete.len() && (#[trigger] delete[k]).id == x.id;
                    assert(delete[k].partition_id == p);
                    assert(files.contains(delete[k]));
                } else {
                    let k = choose|k: int| 0 <= k < upgrade.len() && (#[trigger] upgrade[k]).id == x.id;
                    assert(upgrade[k].partition_id == p);
                    assert(files.contains(upgrade[k]));
                }
            }
        }
        assert(partition_files(all, q) =~= partition_files(files, q));
    }
}

/// The created files stand at the end of the catalog, in the order of the
/// submitted parameters, each under the identifier at the same position.
pub proof fn lemma_commit_ids_in_order(
    files: Seq<ParquetFile>,
    delete: Seq<ParquetFile>,
    upgrade: Seq<ParquetFile>,
    create: Seq<ParquetFileParams>,
    target_level: CompactionLevel,
    ids: Seq<ParquetFileId>,
    k: int,
)
    requires
        ids.len() == create.len(),
        0 <= k < create.len(),
    ensures
        ({
            let all = committed(files, delete, upgrade, create, target_level, ids);
            all[all.len() - create.len() + k] == with_level(
                params_to_file(create[k], ids[k]),
                target_level,
            )
        }),
{
}

} // verus!
