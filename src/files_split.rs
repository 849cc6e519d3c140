use vstd::multiset::Multiset;
use vstd::prelude::*;

use crate::data::{ranges_intersect, CompactionLevel, ParquetFile};

verus! {

/// File `files[i]` intersects, in time, some other file of `files` whose level
/// is at least its own.
pub open spec fn overlapped_at(files: Seq<ParquetFile>, i: int) -> bool {
    exists|j: int|
        0 <= j < files.len() && j != i && #[trigger] ranges_intersect(files[i], files[j])
            && files[j].compaction_level.rank() >= files[i].compaction_level.rank()
}

/// The overlapped files among the first `n` of `files`, in input order.
pub open spec fn overlapped_prefix(files: Seq<ParquetFile>, n: nat) -> Seq<ParquetFile>
    decreases n,
{
    if n == 0 {
        Seq::empty()
    } else {
        let rest = overlapped_prefix(files, (n - 1) as nat);
        if overlapped_at(files, n - 1) {
            rest.push(files[n - 1])
        } else {
            rest
        }
    }
}

/// The files among the first `n` of `files` that overlap nothing, in input order.
pub open spec fn isolated_prefix(files: Seq<ParquetFile>, n: nat) -> Seq<ParquetFile>
    decreases n,
{
    if n == 0 {
        Seq::empty()
    } else {
        let rest = isolated_prefix(files, (n - 1) as nat);
        if overlapped_at(files, n - 1) {
            rest
        } else {
            rest.push(files[n - 1])
        }
    }
}

/// Files of `files` that must be rewritten under the overlap-aware strategy.
pub open spec fn must_rewrite(files: Seq<ParquetFile>) -> Seq<ParquetFile> {
    overlapped_prefix(files, files.len())
}

/// Files of `files` that can be promoted untouched under the overlap-aware strategy.
pub open spec fn can_promote(files: Seq<ParquetFile>) -> Seq<ParquetFile> {
    isolated_prefix(files, files.len())
}

/// Splits a partition's files into those to rewrite and those to promote as they are.
pub trait FilesSplit {
    /// The split this strategy makes of `files` for `target_level`.
    spec fn split(&self, files: Seq<ParquetFile>, target_level: CompactionLevel) -> (
        Seq<ParquetFile>,
        Seq<ParquetFile>,
    );

    /// Returns `(must_rewrite, can_promote)`; together they hold each input file
    /// exactly once.
    fn apply(&self, files: Vec<ParquetFile>, target_level: CompactionLevel) -> (r: (
        Vec<ParquetFile>,
        Vec<ParquetFile>,
    ))
        ensures
            (r.0@, r.1@) == self.split(files@, target_level),
            r.0@.to_multiset().add(r.1@.to_multiset()) == files@.to_multiset(),
    ;
}

/// Compacts every file at once: nothing is promoted without a rewrite.
#[derive(Debug)]
pub struct AllAtOnceNonOverlapSplit {}

impl AllAtOnceNonOverlapSplit {
    pub fn new() -> (r: AllAtOnceNonOverlapSplit)
        ensures
            r == (AllAtOnceNonOverlapSplit {  }),
    {
        AllAtOnceNonOverlapSplit {  }
    }

    /// A human-readable name of the strategy.
    pub fn to_string(&self) -> (r: String)
        ensures
            r@ == "Non-overlapping  split for AllAtOnce version"@,
    {
        String::from_str("Non-overlapping  split for AllAtOnce version")
    }
}

impl FilesSplit for AllAtOnceNonOverlapSplit {
    open spec fn split(&self, files: Seq<ParquetFile>, target_level: CompactionLevel) -> (
        Seq<ParquetFile>,
        Seq<ParquetFile>,
    ) {
        (files, Seq::empty())
    }

    fn apply(&self, files: Vec<ParquetFile>, target_level: CompactionLevel) -> (r: (
        Vec<ParquetFile>,
        Vec<ParquetFile>,
    )) {
        proof {
            broadcast use vstd::seq_lib::group_to_multiset_ensures;

            assert(Seq::<ParquetFile>::empty().to_multiset() =~= Multiset::empty());
            assert(files@.to_multiset().add(Multiset::empty()) =~= files@.to_multiset());
        }
        (files, Vec::new())
    }
}

/// Promotes each file that intersects no other file of an equal or higher
/// level, and rewrites all others.
#[derive(Debug)]
pub struct NonOverlapSplit {}

impl NonOverlapSplit {
    pub fn new() -> (r: NonOverlapSplit)
        ensures
            r == (NonOverlapSplit {  }),
    {
        NonOverlapSplit {  }
    }

    /// A human-readable name of the strategy.
    pub fn to_string(&self) -> (r: String)
        ensures
            r@ == "Non-overlapping split"@,
    {
        String::from_str("Non-overlapping split")
    }
}

/// Whether `files[i]` intersects another file of `files` of an equal or higher level.
fn is_overlapped(files: &Vec<ParquetFile>, i: usize) -> (r: bool)
    requires
        i < files.len(),
    ensures
        r == overlapped_at(files@, i as int),
{
    let f = files[i];
    let rank = f.compaction_level.get();
    let mut j: usize = 0;
    while j < files.len()
        invariant
            j <= files.len(),
            i < files.len(),
            f == files@[i as int],
            rank as int == f.compaction_level.rank(),
            forall|k: int|
                0 <= k < j && k != i ==> !(#[trigger] ranges_intersect(files@[i as int], files@[k])
                    && files@[k].compaction_level.rank() >= rank),
        decreases files.len() - j,
    {
        if j != i {
            let g = files[j];
            if f.overlaps(&g) && g.compaction_level.get() >= rank {
                return true;
            }
        }
        j += 1;
    }
    false
}

impl FilesSplit for NonOverlapSplit {
    open spec fn split(&self, files: Seq<ParquetFile>, target_level: CompactionLevel) -> (
        Seq<ParquetFile>,
        Seq<ParquetFile>,
    ) {
        (must_rewrite(files), can_promote(files))
    }

    fn apply(&self, files: Vec<ParquetFile>, target_level: CompactionLevel) -> (r: (
        Vec<ParquetFile>,
        Vec<ParquetFile>,
    )) {
        let mut rewrite: Vec<ParquetFile> = Vec::new();
        let mut promote: Vec<ParquetFile> = Vec::new();
        let mut i: usize = 0;
        while i < files.len()
            invariant
                i <= files.len(),
                rewrite@ == overlapped_prefix(files@, i as nat),
                promote@ == isolated_prefix(files@, i as nat),
            decreases files.len() - i,
        {
            if is_overlapped(&files, i) {
                rewrite.push(files[i]);
            } else {
                promote.push(files[i]);
            }
            i += 1;
        }
        proof {
            lemma_split_prefix_multiset(files@, files@.len());
            assert(files@.take(files@.len() as int) =~= files@);
        }
        (rewrite, promote)
    }
}

/// The two parts of the first `n` files hold those files exactly once.
proof fn lemma_split_prefix_multiset(files: Seq<ParquetFile>, n: nat)
    requires
        n <= files.len(),
    ensures
        overlapped_prefix(files, n).to_multiset().add(isolated_prefix(files, n).to_multiset())
            == files.take(n as int).to_multiset(),
    decreases n,
{
    broadcast use vstd::seq_lib::group_to_multiset_ensures;

    if n == 0 {
        assert(files.take(0) =~= Seq::<ParquetFile>::empty());
        assert(Seq::<ParquetFile>::empty().to_multiset() =~= Multiset::empty());
        assert(Multiset::<ParquetFile>::empty().add(Multiset::empty()) =~= Multiset::empty());
    } else {
        let m = (n - 1) as nat;
        lemma_split_prefix_multiset(files, m);
        assert(files.take(n as int) =~= files.take(m as int).push(files[m as int]));
        let a = overlapped_prefix(files, m).to_multiset();
        let b = isolated_prefix(files, m).to_multiset();
        let x = files[m as int];
        assert(a.insert(x).add(b) =~= a.add(b).insert(x));
        assert(a.add(b.insert(x)) =~= a.add(b).insert(x));
    }
}


/// `x` is the file at an overlapped position of `files` before `n`.
spec fn overlapped_origin(files: Seq<ParquetFile>, x: ParquetFile, n: int) -> bool {
    exists|i: int| 0 <= i < n && x == files[i] && #[trigger] overlapped_at(files, i)
}

/// `x` is the file at an isolated position of `files` before `n`.
spec fn isolated_origin(files: Seq<ParquetFile>, x: ParquetFile, n: int) -> bool {
    exists|i: int| 0 <= i < n && x == files[i] && !#[trigger] overlapped_at(files, i)
}

/// Each overlapped file among the first `n` comes from an overlapped position
/// before `n`, and each isolated one from an isolated position before `n`.
proof fn lemma_prefix_origin(files: Seq<ParquetFile>, n: nat)
    requires
        n <= files.len(),
    ensures
        forall|a: int|
            0 <= a < overlapped_prefix(files, n).len() ==> overlapped_origin(
                files,
                #[trigger] overlapped_prefix(files, n)[a],
                n as int,
            ),
        forall|a: int|
            0 <= a < isolated_prefix(files, n).len() ==> isolated_origin(
                files,
                #[trigger] isolated_prefix(files, n)[a],
                n as int,
            ),
    decreases n,
{
    if n > 0 {
        let m = (n - 1) as nat;
        lemma_prefix_origin(files, m);
        let o = overlapped_prefix(files, n);
        let om = overlapped_prefix(files, m);
        assert forall|a: int| 0 <= a < o.len() implies overlapped_origin(
            files,
            #[trigger] o[a],
            n as int,
        ) by {
            if a < om.len() {
                assert(o[a] == om[a]);
                assert(overlapped_origin(files, om[a], m as int));
            } else {
                assert(overlapped_at(files, m as int));
                assert(o[a] == files[m as int]);
            }
        }
        let s = isolated_prefix(files, n);
        let sm = isolated_prefix(files, m);
        assert forall|a: int| 0 <= a < s.len() implies isolated_origin(
            files,
            #[trigger] s[a],
            n as int,
        ) by {
            if a < sm.len() {
                assert(s[a] == sm[a]);
                assert(isolated_origin(files, sm[a], m as int));
            } else {
                assert(!overlapped_at(files, m as int));
                assert(s[a] == files[m as int]);
            }
        }
    }
}

/// No two isolated files among the first `n` intersect in time.
proof fn lemma_isolated_pairwise(files: Seq<ParquetFile>, n: nat)
    requires
        n <= files.len(),
    ensures
        forall|a: int, b: int|
            0 <= a < b < isolated_prefix(files, n).len() ==> !ranges_intersect(
                #[trigger] isolated_prefix(files, n)[a],
                #[trigger] isolated_prefix(files, n)[b],
            ),
    decreases n,
{
    if n > 0 {
        let m = (n - 1) as nat;
        lemma_isolated_pairwise(files, m);
        lemma_prefix_origin(files, m);
        let s = isolated_prefix(files, n);
        let sm = isolated_prefix(files, m);
        if !overlapped_at(files, m as int) {
            assert forall|a: int, b: int| 0 <= a < b < s.len() implies !ranges_intersect(
                #[trigger] s[a],
                #[trigger] s[b],
            ) by {
                if b == sm.len() {
                    assert(s[a] == sm[a]);
                    assert(isolated_origin(files, sm[a], m as int));
                    let i = choose|i: int|
                        0 <= i < m && sm[a] == files[i] && !#[trigger] overlapped_at(files, i);
                    if ranges_intersect(files[i], files[m as int]) {
                        if files[m as int].compaction_level.rank()
                            >= files[i].compaction_level.rank() {
                            assert(overlapped_at(files, i));
                        } else {
                            assert(ranges_intersect(files[m as int], files[i]));
                            assert(overlapped_at(files, m as int));
                        }
                    }
                } else {
                    assert(s[a] == sm[a]);
                    assert(s[b] == sm[b]);
                }
            }
        }
    }
}

/// Both strategies place every input file in exactly one of their two outputs:
/// counted with multiplicity the outputs together are the input, as sets their
/// union is the input, and no file stands in both outputs.
pub proof fn lemma_split_partitions_files(files: Seq<ParquetFile>, target_level: CompactionLevel)
    ensures
        must_rewrite(files).to_multiset().add(can_promote(files).to_multiset())
            == files.to_multiset(),
        must_rewrite(files).to_set() + can_promote(files).to_set() == files.to_set(),
        must_rewrite(files).to_set() * can_promote(files).to_set() == Set::<ParquetFile>::empty(),
        ({
            let (m, p) = AllAtOnceNonOverlapSplit {  }.split(files, target_level);
            &&& m.to_set() + p.to_set() == files.to_set()
            &&& m.to_set() * p.to_set() == Set::<ParquetFile>::empty()
        }),
{
    broadcast use vstd::seq_lib::group_to_multiset_ensures;

    let must = must_rewrite(files);
    let promote = can_promote(files);
    lemma_split_prefix_multiset(files, files.len());
    assert(files.take(files.len() as int) =~= files);
    assert forall|x: ParquetFile| files.contains(x) <==> must.contains(x) || promote.contains(x) by {
        assert(files.to_multiset().count(x) == must.to_multiset().count(x)
            + promote.to_multiset().count(x));
    }
    assert(must.to_set() + promote.to_set() =~= files.to_set());
    lemma_prefix_origin(files, files.len());
    assert forall|x: ParquetFile| !(must.contains(x) && promote.contains(x)) by {
        if must.contains(x) && promote.contains(x) {
            let a = choose|a: int| 0 <= a < must.len() && must[a] == x;
            let b = choose|b: int| 0 <= b < promote.len() && promote[b] == x;
            assert(overlapped_origin(files, must[a], files.len() as int));
            assert(isolated_origin(files, promote[b], files.len() as int));
            let i = choose|i: int|
                0 <= i < files.len() && must[a] == files[i] && #[trigger] overlapped_at(files, i);
            let j = choose|j: int|
                0 <= j < files.len() && promote[b] == files[j] && !#[trigger] overlapped_at(
                    files,
                    j,
                );
            assert(i != j);
            let k = choose|k: int|
                0 <= k < files.len() && k != i && #[trigger] ranges_intersect(files[i], files[k])
                    && files[k].compaction_level.rank() >= files[i].compaction_level.rank();
            if k == j {
                assert(ranges_intersect(files[j], files[i]));
            } else {
                assert(ranges_intersect(files[j], files[k]));
            }
            assert(overlapped_at(files, j));
        }
    }
    assert(must.to_set() * promote.to_set() =~= Set::<ParquetFile>::empty());
    assert(files.to_set() + Seq::<ParquetFile>::empty().to_set() =~= files.to_set());
    assert(files.to_set() * Seq::<ParquetFile>::empty().to_set() =~= Set::<ParquetFile>::empty());
}

/// `x` is a file of `files` that intersects, in time, a file at another position.
pub open spec fn intersects_another(files: Seq<ParquetFile>, x: ParquetFile) -> bool {
    exists|i: int, j: int|
        0 <= i < files.len() && 0 <= j < files.len() && i != j && x == files[i]
            && #[trigger] ranges_intersect(files[i], files[j])
}

/// Under the overlap-aware strategy no two promoted files intersect in time,
/// and every file to rewrite intersects another file of the input.
pub proof fn lemma_split_overlap_correct(files: Seq<ParquetFile>)
    ensures
        forall|a: int, b: int|
            0 <= a < b < can_promote(files).len() ==> !ranges_intersect(
                #[trigger] can_promote(files)[a],
                #[trigger] can_promote(files)[b],
            ),
        forall|a: int|
            0 <= a < must_rewrite(files).len() ==> intersects_another(
                files,
                #[trigger] must_rewrite(files)[a],
            ),
{
    lemma_isolated_pairwise(files, files.len());
    lemma_prefix_origin(files, files.len());
    assert forall|a: int| 0 <= a < must_rewrite(files).len() implies intersects_another(
        files,
        #[trigger] must_rewrite(files)[a],
    ) by {
        assert(overlapped_origin(files, must_rewrite(files)[a], files.len() as int));
        let i = choose|i: int|
            0 <= i < files.len() && must_rewrite(files)[a] == files[i] && #[trigger] overlapped_at(
                files,
                i,
            );
        let j = choose|j: int|
            0 <= j < files.len() && j != i && #[trigger] ranges_intersect(files[i], files[j])
                && files[j].compaction_level.rank() >= files[i].compaction_level.rank();
        assert(0 <= i < files.len() && 0 <= j < files.len() && i != j && must_rewrite(files)[a]
            == files[i] && ranges_intersect(files[i], files[j]));
    }
}

} // verus!
