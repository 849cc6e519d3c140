use vstd::prelude::*;

use crate::data::{params_to_file, with_level, ParquetFile, ParquetFileId, ParquetFileParams};
use crate::scheduler::{
    committed, created_files, kept_by, fresh_ids, replaced_by, upgraded_files, CommitUpdate,
    CompactionJobStatus, CompactionJobStatusResponse, CompactionJobStatusVariant, Scheduler,
    SchedulerError,
};

verus! {

/// A scheduler over a catalog held in memory.
#[derive(Debug)]
pub struct LocalScheduler {
    files: Vec<ParquetFile>,
    /// The identifier the next created file receives.
    next_id: i64,
}

/// Every identifier in `files` lies below `next_id`, unless no identifier is left.
pub open spec fn ids_below(files: Seq<ParquetFile>, next_id: int) -> bool {
    forall|i: int| 0 <= i < files.len() ==> (#[trigger] files[i]).id.id < next_id || next_id == i64::MAX
}

/// Whether `u` deletes or upgrades the file with identifier `id`.
fn is_replaced(u: &CommitUpdate, id: ParquetFileId) -> (r: bool)
    ensures
        r == replaced_by(u.delete@, u.upgrade@, id),
{
    let mut k: usize = 0;
    while k < u.delete.len()
        invariant
            k <= u.delete.len(),
            forall|a: int| 0 <= a < k ==> (#[trigger] u.delete@[a]).id != id,
        decreases u.delete.len() - k,
    {
        if u.delete[k].id.id == id.id {
            return true;
        }
        k += 1;
    }
    let mut k: usize = 0;
    while k < u.upgrade.len()
        invariant
            k <= u.upgrade.len(),
            forall|a: int| 0 <= a < u.delete.len() ==> (#[trigger] u.delete@[a]).id != id,
            forall|a: int| 0 <= a < k ==> (#[trigger] u.upgrade@[a]).id != id,
        decreases u.upgrade.len() - k,
    {
        if u.upgrade[k].id.id == id.id {
            return true;
        }
        k += 1;
    }
    false
}

/// Raises `start` above each identifier of `files` in turn, stopping at
/// `i64::MAX`.
pub open spec fn next_free(start: int, files: Seq<ParquetFile>) -> int
    decreases files.len(),
{
    if files.len() == 0 {
        start
    } else {
        let n = next_free(start, files.drop_last());
        let id = files.last().id.id as int;
        if id >= n {
            if id == i64::MAX {
                i64::MAX as int
            } else {
                id + 1
            }
        } else {
            n
        }
    }
}

/// The least identifier at or above `start` that lies above every identifier
/// of `files`, or `i64::MAX` where there is none.
fn next_free_id(files: &Vec<ParquetFile>, start: i64) -> (r: i64)
    requires
        0 <= start,
    ensures
        r == next_free(start as int, files@),
        start <= r,
        ids_below(files@, r as int),
        start == i64::MAX ==> r == i64::MAX,
{
    let mut next_id: i64 = start;
    let mut i: usize = 0;
    while i < files.len()
        invariant
            i <= files.len(),
            start <= next_id,
            start == i64::MAX ==> next_id == i64::MAX,
            ids_below(files@.take(i as int), next_id as int),
            next_id == next_free(start as int, files@.take(i as int)),
        decreases files.len() - i,
    {
        assert(files@.take(i + 1).drop_last() == files@.take(i as int));
        let id = files[i].id.id;
        if id >= next_id {
            next_id = if id == i64::MAX {
                i64::MAX
            } else {
                id + 1
            };
        }
        assert(files@.take(i + 1) == files@.take(i as int).push(files@[i as int]));
        i += 1;
    }
    assert(files@.take(files.len() as int) == files@);
    next_id
}

/// A catalog made of three parts keeps identifiers below a bound where each
/// part does.
proof fn lemma_ids_below_concat(
    a: Seq<ParquetFile>,
    b: Seq<ParquetFile>,
    c: Seq<ParquetFile>,
    bound: int,
)
    requires
        ids_below(a, bound),
        ids_below(b, bound),
        ids_below(c, bound),
    ensures
        ids_below(a + b + c, bound),
{
    assert forall|i: int| 0 <= i < (a + b + c).len() implies (#[trigger] (a + b + c)[i]).id.id
        < bound || bound == i64::MAX by {
        if i < a.len() {
            assert((a + b + c)[i] == a[i]);
        } else if i < a.len() + b.len() {
            assert((a + b + c)[i] == b[i - a.len()]);
        } else {
            assert((a + b + c)[i] == c[i - a.len() - b.len()]);
        }
    }
}

impl LocalScheduler {
    /// The identifier from which created files are numbered.
    pub closed spec fn next_id(&self) -> int {
        self.next_id as int
    }

    /// A scheduler whose catalog holds `files`; new identifiers start above the
    /// largest one present.
    pub fn new(files: Vec<ParquetFile>) -> (r: LocalScheduler)
        ensures
            r.catalog() == files@,
            r.next_id() == next_free(0, files@),
            r.inv(),
    {
        let next_id = next_free_id(&files, 0);
        LocalScheduler { files, next_id }
    }

    /// The files of the catalog.
    pub fn files(&self) -> (r: Vec<ParquetFile>)
        ensures
            r@ == self.catalog(),
    {
        self.files.clone()
    }

    /// Applies `u`, giving the created files identifiers from `next_id` on.
    fn apply(&mut self, u: &CommitUpdate) -> (r: Result<Vec<ParquetFileId>, SchedulerError>)
        requires
            old(self).inv(),
        ensures
            final(self).inv(),
            match r {
                Ok(ids) => {
                    &&& ids@.len() == u.create@.len()
                    &&& fresh_ids(old(self).catalog(), ids@)
                    &&& final(self).catalog() == committed(
                        old(self).catalog(),
                        u.delete@,
                        u.upgrade@,
                        u.create@,
                        u.target_level,
                        ids@,
                    )
                },
                Err(e) => final(self).catalog() == old(self).catalog() && e
                    == SchedulerError::IdsExhausted,
            },
            r is Ok <==> u.create@.len() + next_free(old(self).next_id(), u.upgrade@) <= i64::MAX,
    {
        let base = next_free_id(&u.upgrade, self.next_id);
        if u.create.len() as u64 > (i64::MAX - base) as u64 {
            return Err(SchedulerError::IdsExhausted);
        }
        let ghost pred = kept_by(u.delete@, u.upgrade@);
        let ghost old_files = self.files@;
        let mut files: Vec<ParquetFile> = Vec::new();
        let mut i: usize = 0;
        while i < self.files.len()
            invariant
                i <= self.files.len(),
                self.files@ == old_files,
                pred == kept_by(u.delete@, u.upgrade@),
                files@ == old_files.take(i as int).filter(pred),
            decreases self.files.len() - i,
        {
            let f = self.files[i];
            proof {
                old_files.take(i as int).lemma_filter_push(f, pred);
                assert(old_files.take(i + 1) == old_files.take(i as int).push(f));
                assert(pred(f) == !replaced_by(u.delete@, u.upgrade@, f.id));
            }
            if !is_replaced(u, f.id) {
                files.push(f);
            }
            i += 1;
        }
        assert(old_files.take(old_files.len() as int) == old_files);
        let ghost kept = files@;
        let mut k: usize = 0;
        while k < u.upgrade.len()
            invariant
                k <= u.upgrade.len(),
                files@ == kept + upgraded_files(u.upgrade@.take(k as int), u.target_level),
            decreases u.upgrade.len() - k,
        {
            files.push(u.upgrade[k].upgraded(u.target_level));
            assert(upgraded_files(u.upgrade@.take(k + 1), u.target_level) =~= upgraded_files(
                u.upgrade@.take(k as int),
                u.target_level,
            ).push(with_level(u.upgrade@[k as int], u.target_level)));
            k += 1;
        }
        assert(u.upgrade@.take(u.upgrade.len() as int) == u.upgrade@);
        let ghost kept = files@;
        let mut ids: Vec<ParquetFileId> = Vec::new();
        let mut k: usize = 0;
        while k < u.create.len()
            invariant
                k <= u.create.len(),
                self.inv(),
                self.files@ == old_files,
                self.next_id <= base,
                u.create.len() <= i64::MAX - base,
                ids@.len() == k,
                forall|a: int| 0 <= a < k ==> (#[trigger] ids@[a]).id == base + a,
                files@ == kept + created_files(u.create@.take(k as int), ids@, u.target_level),
            decreases u.create.len() - k,
        {
            let id = ParquetFileId { id: base + k as i64 };
            let f = u.create[k].into_file(id).upgraded(u.target_level);
            ids.push(id);
            files.push(f);
            assert(created_files(u.create@.take(k + 1), ids@, u.target_level) =~= created_files(
                u.create@.take(k as int),
                ids@.take(k as int),
                u.target_level,
            ).push(with_level(params_to_file(u.create@[k as int], id), u.target_level)));
            assert(created_files(u.create@.take(k as int), ids@.take(k as int), u.target_level)
                =~= created_files(u.create@.take(k as int), ids@.drop_last(), u.target_level));
            k += 1;
        }
        assert(u.create@.take(u.create.len() as int) == u.create@);
        let ghost a = old_files.filter(pred);
        let ghost b = upgraded_files(u.upgrade@, u.target_level);
        let ghost c = created_files(u.create@, ids@, u.target_level);
        let new_next = base + u.create.len() as i64;
        proof {
            if u.create.len() > 0 {
                assert forall|x: int, i: int|
                    0 <= x < ids@.len() && 0 <= i < old_files.len() implies #[trigger] ids@[x]
                    != (#[trigger] old_files[i]).id by {
                    assert(old_files[i].id.id < self.next_id);
                }
            }
            assert forall|i: int| 0 <= i < a.len() implies (#[trigger] a[i]).id.id < new_next
                || new_next == i64::MAX by {
                old_files.lemma_filter_contains_rev(pred, a[i]);
                let j = choose|j: int| 0 <= j < old_files.len() && old_files[j] == a[i];
                assert(old_files[j].id.id < self.next_id || self.next_id == i64::MAX);
            }
            assert forall|i: int| 0 <= i < b.len() implies (#[trigger] b[i]).id.id < new_next
                || new_next == i64::MAX by {
                assert(u.upgrade@[i].id.id < base || base == i64::MAX);
            }
            assert forall|i: int| 0 <= i < c.len() implies (#[trigger] c[i]).id.id < new_next
                || new_next == i64::MAX by {
                assert(ids@[i].id == base + i);
            }
            lemma_ids_below_concat(a, b, c, new_next as int);
        }
        self.files = files;
        self.next_id = new_next;
        Ok(ids)
    }
}

impl Scheduler for LocalScheduler {
    closed spec fn inv(&self) -> bool {
        0 <= self.next_id && ids_below(self.files@, self.next_id as int)
    }

    closed spec fn catalog(&self) -> Seq<ParquetFile> {
        self.files@
    }

    /// Identifiers are left for every file to create.
    open spec fn accepts(
        &self,
        delete: Seq<ParquetFile>,
        upgrade: Seq<ParquetFile>,
        create: Seq<ParquetFileParams>,
    ) -> bool {
        create.len() + next_free(self.next_id(), upgrade) <= i64::MAX
    }

    /// The only failure is running out of identifiers.
    open spec fn may_fail_with(&self, e: SchedulerError) -> bool {
        e == SchedulerError::IdsExhausted
    }

    /// The only failure is running out of identifiers.
    fn update_job_status(&mut self, status: CompactionJobStatus) -> (r: Result<
        CompactionJobStatusResponse,
        SchedulerError,
    >)
        ensures
            r is Err ==> r == Err::<CompactionJobStatusResponse, SchedulerError>(
                SchedulerError::IdsExhausted,
            ),
            status.status is Error ==> r == Ok::<CompactionJobStatusResponse, SchedulerError>(
                CompactionJobStatusResponse::Ack,
            ),
    {
        match status.status {
            CompactionJobStatusVariant::Update(u) => match self.apply(&u) {
                Ok(ids) => Ok(CompactionJobStatusResponse::CreatedParquetFiles(ids)),
                Err(e) => Err(e),
            },
            CompactionJobStatusVariant::Error(_) => Ok(CompactionJobStatusResponse::Ack),
        }
    }
}

} // verus!
