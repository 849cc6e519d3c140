use hashbrown::HashMap;
use vstd::multiset::Multiset;
use vstd::prelude::*;
use vstd::string::*;

use crate::headers::str_chars;

verus! {

/// A column of a chunk's schema.
#[derive(Clone, Debug)]
pub struct ColumnSchema {
    pub name: String,
    /// The column is a tag column.
    pub is_tag: bool,
}

/// What a sort key is computed from, for one chunk of data.
#[derive(Clone, Debug)]
pub struct ChunkSummary {
    /// The chunk's columns, in schema order.
    pub columns: Vec<ColumnSchema>,
    /// The number of distinct values of each column, in schema order, where
    /// the chunk has column statistics.
    pub distinct_counts: Option<Vec<Option<u64>>>,
}

/// The number of columns that have both a schema entry and a statistic.
pub open spec fn zip_len(c: ChunkSummary) -> int {
    match c.distinct_counts {
        None => 0,
        Some(s) => if c.columns@.len() <= s@.len() {
            c.columns@.len() as int
        } else {
            s@.len() as int
        },
    }
}

/// Column `k` of `c` is a tag column named `name` that has a statistic.
pub open spec fn tag_at(c: ChunkSummary, name: Seq<char>, k: int) -> bool {
    0 <= k < zip_len(c) && c.columns@[k].is_tag && c.columns@[k].name@ == name
}

/// The distinct count of column `k` of `c`, zero where unknown.
pub open spec fn count_at(c: ChunkSummary, k: int) -> nat {
    match c.distinct_counts {
        Some(s) => match s@[k] {
            Some(n) => n as nat,
            None => 0,
        },
        None => 0,
    }
}

/// The distinct counts of tag column `name` among the first `k` columns of `c`.
pub open spec fn chunk_card(c: ChunkSummary, name: Seq<char>, k: int) -> nat
    decreases k,
{
    if k <= 0 {
        0
    } else {
        chunk_card(c, name, k - 1) + if tag_at(c, name, k - 1) {
            count_at(c, k - 1)
        } else {
            0
        }
    }
}

/// Tag column `name` is among the first `k` columns of `c`.
pub open spec fn chunk_has_tag(c: ChunkSummary, name: Seq<char>, k: int) -> bool {
    exists|j: int| 0 <= j < k && #[trigger] tag_at(c, name, j)
}

/// The summed distinct counts of tag column `name` over the first `i` chunks.
pub open spec fn total_card(chunks: Seq<ChunkSummary>, name: Seq<char>, i: int) -> nat
    decreases i,
{
    if i <= 0 {
        0
    } else {
        total_card(chunks, name, i - 1) + chunk_card(chunks[i - 1], name, zip_len(chunks[i - 1]))
    }
}

/// Tag column `name`, with a statistic, is in one of the first `i` chunks.
pub open spec fn has_tag(chunks: Seq<ChunkSummary>, name: Seq<char>, i: int) -> bool {
    exists|x: int|
        0 <= x < i && #[trigger] chunk_has_tag(chunks[x], name, zip_len(chunks[x]))
}

/// The estimated cardinality of tag column `name`: its summed distinct
/// counts, capped at `u64::MAX`.
pub open spec fn cardinality(chunks: Seq<ChunkSummary>, name: Seq<char>) -> u64 {
    let t = total_card(chunks, name, chunks.len() as int);
    if t <= u64::MAX {
        t as u64
    } else {
        u64::MAX
    }
}

/// Summed distinct counts per column name.
#[verifier::external_body]
pub struct Cardinalities {
    map: HashMap<String, u64>,
}

/// The counts that a `Cardinalities` holds, by column name.
pub uninterp spec fn counts_of(c: Cardinalities) -> Map<Seq<char>, u64>;

impl Cardinalities {
    /// Relies on `hashbrown::HashMap::new`: an empty map.
    #[verifier::external_body]
    fn new() -> (r: Cardinalities)
        ensures
            counts_of(r).dom() == Set::<Seq<char>>::empty(),
    {
        Cardinalities { map: HashMap::new() }
    }

    /// Relies on `hashbrown::HashMap::get`: the value under an equal key.
    #[verifier::external_body]
    fn get(&self, name: &String) -> (r: Option<u64>)
        ensures
            r is Some <==> counts_of(*self).dom().contains(name@),
            r matches Some(v) ==> v == counts_of(*self)[name@],
    {
        self.map.get(name.as_str()).copied()
    }

    /// Relies on `hashbrown::HashMap::insert`: the key then maps to the value,
    /// and no other key changes.
    #[verifier::external_body]
    fn insert(&mut self, name: String, count: u64)
        ensures
            counts_of(*final(self)) == counts_of(*old(self)).insert(name@, count),
    {
        self.map.insert(name, count);
    }

    /// Relies on `hashbrown::HashMap::into_iter`: each entry once, in no
    /// particular order.
    #[verifier::external_body]
    fn into_entries(self) -> (r: Vec<(String, u64)>)
        ensures
            forall|i: int|
                0 <= i < r@.len() ==> counts_of(self).dom().contains(#[trigger] r@[i].0@)
                    && counts_of(self)[r@[i].0@] == r@[i].1,
            forall|n: Seq<char>| #[trigger]
                counts_of(self).dom().contains(n) ==> exists|i: int|
                    0 <= i < r@.len() && r@[i].0@ == n,
            forall|i: int, j: int|
                0 <= i < j < r@.len() ==> (#[trigger] r@[i]).0@ != (#[trigger] r@[j]).0@,
    {
        self.map.into_iter().collect()
    }
}

/// `x` capped at `u64::MAX`.
pub open spec fn cap(x: nat) -> u64 {
    if x <= u64::MAX {
        x as u64
    } else {
        u64::MAX
    }
}

proof fn lemma_no_tag_no_card(c: ChunkSummary, name: Seq<char>, k: int)
    requires
        !chunk_has_tag(c, name, k),
    ensures
        chunk_card(c, name, k) == 0,
    decreases k,
{
    if k > 0 {
        assert(!tag_at(c, name, k - 1));
        assert(!chunk_has_tag(c, name, k - 1)) by {
            if chunk_has_tag(c, name, k - 1) {
                let j = choose|j: int| 0 <= j < k - 1 && #[trigger] tag_at(c, name, j);
                assert(0 <= j < k && tag_at(c, name, j));
            }
        }
        lemma_no_tag_no_card(c, name, k - 1);
    }
}

proof fn lemma_no_chunk_no_card(chunks: Seq<ChunkSummary>, name: Seq<char>, i: int)
    requires
        0 <= i <= chunks.len(),
        !has_tag(chunks, name, i),
    ensures
        total_card(chunks, name, i) == 0,
    decreases i,
{
    if i > 0 {
        assert(!chunk_has_tag(chunks[i - 1], name, zip_len(chunks[i - 1])));
        lemma_no_tag_no_card(chunks[i - 1], name, zip_len(chunks[i - 1]));
        assert(!has_tag(chunks, name, i - 1)) by {
            if has_tag(chunks, name, i - 1) {
                let x = choose|x: int|
                    0 <= x < i - 1 && #[trigger] chunk_has_tag(
                        chunks[x],
                        name,
                        zip_len(chunks[x]),
                    );
                assert(0 <= x < i);
            }
        }
        lemma_no_chunk_no_card(chunks, name, i - 1);
    }
}

/// The counts gathered from the first `i` chunks and the first `k` columns of chunk `i`.
pub open spec fn gathered(
    counts: Map<Seq<char>, u64>,
    chunks: Seq<ChunkSummary>,
    i: int,
    k: int,
) -> bool {
    &&& forall|n: Seq<char>| #[trigger]
        counts.dom().contains(n) <==> (has_tag(chunks, n, i) || (i < chunks.len()
            && chunk_has_tag(chunks[i], n, k)))
    &&& forall|n: Seq<char>| #[trigger]
        counts.dom().contains(n) ==> counts[n] == cap(
            total_card(chunks, n, i) + if i < chunks.len() {
                chunk_card(chunks[i], n, k)
            } else {
                0
            },
        )
}

/// Sums, per tag column name, the distinct counts of the chunks with statistics.
fn collect_cardinalities(chunks: &Vec<ChunkSummary>) -> (r: Cardinalities)
    ensures
        forall|n: Seq<char>| #[trigger]
            counts_of(r).dom().contains(n) <==> has_tag(chunks@, n, chunks@.len() as int),
        forall|n: Seq<char>| #[trigger]
            counts_of(r).dom().contains(n) ==> counts_of(r)[n] == cardinality(chunks@, n),
{
    let mut cards = Cardinalities::new();
    let mut i: usize = 0;
    while i < chunks.len()
        invariant
            i <= chunks.len(),
            gathered(counts_of(cards), chunks@, i as int, 0),
        decreases chunks.len() - i,
    {
        let chunk = &chunks[i];
        let ghost c = chunks@[i as int];
        match &chunk.distinct_counts {
            None => {},
            Some(stats) => {
                let n = if chunk.columns.len() <= stats.len() {
                    chunk.columns.len()
                } else {
                    stats.len()
                };
                assert(n == zip_len(c));
                let mut k: usize = 0;
                while k < n
                    invariant
                        i < chunks.len(),
                        c == chunks@[i as int],
                        chunk.distinct_counts == Some(*stats),
                        *chunk == c,
                        n == zip_len(c),
                        k <= n,
                        gathered(counts_of(cards), chunks@, i as int, k as int),
                    decreases n - k,
                {
                    let col = &chunk.columns[k];
                    let ghost before = counts_of(cards);
                    if col.is_tag {
                        let cnt: u64 = match stats[k] {
                            Some(v) => v,
                            None => 0,
                        };
                        assert(cnt == count_at(c, k as int));
                        let cur: u64 = match cards.get(&col.name) {
                            Some(v) => v,
                            None => 0,
                        };
                        let next = cur.saturating_add(cnt);
                        proof {
                            let nm = col.name@;
                            assert(tag_at(c, nm, k as int));
                            if !before.dom().contains(nm) {
                                assert(!has_tag(chunks@, nm, i as int));
                                assert(!chunk_has_tag(c, nm, k as int));
                                lemma_no_chunk_no_card(chunks@, nm, i as int);
                                lemma_no_tag_no_card(c, nm, k as int);
                            }
                        }
                        cards.insert(String::from_str(col.name.as_str()), next);
                        proof {
                            let after = counts_of(cards);
                            let nm = col.name@;
                            assert forall|m: Seq<char>| #[trigger]
                                after.dom().contains(m) <==> (has_tag(chunks@, m, i as int)
                                    || chunk_has_tag(c, m, k + 1)) by {
                                if chunk_has_tag(c, m, k + 1) && m != nm {
                                    let j = choose|j: int| 0 <= j < k + 1 && #[trigger] tag_at(c, m, j);
                                    assert(j != k);
                                }
                                if chunk_has_tag(c, m, k as int) {
                                    let j = choose|j: int| 0 <= j < k && #[trigger] tag_at(c, m, j);
                                    assert(0 <= j < k + 1);
                                }
                                if m == nm {
                                    assert(tag_at(c, m, k as int));
                                }
                            }
                        }
                    } else {
                        proof {
                            assert forall|m: Seq<char>| #[trigger]
                                chunk_has_tag(c, m, k + 1) <==> chunk_has_tag(c, m, k as int) by {
                                if chunk_has_tag(c, m, k + 1) {
                                    let j = choose|j: int| 0 <= j < k + 1 && #[trigger] tag_at(c, m, j);
                                    assert(j != k);
                                }
                                if chunk_has_tag(c, m, k as int) {
                                    let j = choose|j: int| 0 <= j < k && #[trigger] tag_at(c, m, j);
                                    assert(0 <= j < k + 1);
                                }
                            }
                        }
                    }
                    k += 1;
                }
            },
        }
        proof {
            let counts = counts_of(cards);
            let z = zip_len(c);
            assert forall|m: Seq<char>| #[trigger]
                has_tag(chunks@, m, i + 1) <==> (has_tag(chunks@, m, i as int) || chunk_has_tag(
                    c,
                    m,
                    z,
                )) by {
                if has_tag(chunks@, m, i + 1) {
                    let x = choose|x: int|
                        0 <= x < i + 1 && #[trigger] chunk_has_tag(
                            chunks@[x],
                            m,
                            zip_len(chunks@[x]),
                        );
                    if x < i {
                        assert(has_tag(chunks@, m, i as int));
                    }
                }
                if has_tag(chunks@, m, i as int) {
                    let x = choose|x: int|
                        0 <= x < i && #[trigger] chunk_has_tag(
                            chunks@[x],
                            m,
                            zip_len(chunks@[x]),
                        );
                    assert(0 <= x < i + 1);
                }
                if chunk_has_tag(c, m, z) {
                    assert(chunk_has_tag(chunks@[i as int], m, zip_len(chunks@[i as int])));
                }
            }
        }
        i += 1;
    }
    cards
}

/// Lexicographic order of `a` and `b` from position `i` on, by code point.
pub open spec fn name_lt_from(a: Seq<char>, b: Seq<char>, i: int) -> bool
    decreases a.len() - i,
{
    if i < 0 {
        false
    } else if i >= a.len() {
        i < b.len()
    } else if i >= b.len() {
        false
    } else if a[i] != b[i] {
        a[i] < b[i]
    } else {
        name_lt_from(a, b, i + 1)
    }
}

/// `a` sorts before `b`, as strings compare.
pub open spec fn name_lt(a: Seq<char>, b: Seq<char>) -> bool {
    name_lt_from(a, b, 0)
}

/// Order by cardinality, then by name.
pub open spec fn entry_lt(a: (Seq<char>, u64), b: (Seq<char>, u64)) -> bool {
    a.1 < b.1 || (a.1 == b.1 && name_lt(a.0, b.0))
}

proof fn lemma_name_lt_trans(a: Seq<char>, b: Seq<char>, c: Seq<char>, i: int)
    requires
        name_lt_from(a, b, i),
        name_lt_from(b, c, i),
    ensures
        name_lt_from(a, c, i),
    decreases a.len() - i,
{
    if 0 <= i < a.len() && i < b.len() && i < c.len() && a[i] == b[i] && b[i] == c[i] {
        lemma_name_lt_trans(a, b, c, i + 1);
    }
}

proof fn lemma_name_lt_total(a: Seq<char>, b: Seq<char>, i: int)
    requires
        0 <= i <= a.len(),
        i <= b.len(),
        !name_lt_from(a, b, i),
        !name_lt_from(b, a, i),
    ensures
        a.len() == b.len(),
        forall|j: int| i <= j < a.len() ==> a[j] == b[j],
    decreases a.len() - i,
{
    if i < a.len() && i < b.len() {
        lemma_name_lt_total(a, b, i + 1);
    }
}

proof fn lemma_entry_lt_trans(a: (Seq<char>, u64), b: (Seq<char>, u64), c: (Seq<char>, u64))
    requires
        entry_lt(a, b),
        entry_lt(b, c),
    ensures
        entry_lt(a, c),
{
    if a.1 == b.1 && b.1 == c.1 {
        lemma_name_lt_trans(a.0, b.0, c.0, 0);
    }
}

proof fn lemma_entry_lt_total(a: (Seq<char>, u64), b: (Seq<char>, u64))
    requires
        a.0 != b.0,
        !entry_lt(a, b),
    ensures
        entry_lt(b, a),
{
    if a.1 == b.1 && !name_lt(b.0, a.0) {
        lemma_name_lt_total(a.0, b.0, 0);
        assert(a.0 =~= b.0);
    }
}

fn name_less(a: &String, b: &String) -> (r: bool)
    ensures
        r == name_lt(a@, b@),
{
    let x = str_chars(a.as_str());
    let y = str_chars(b.as_str());
    let mut i: usize = 0;
    while i < x.len() && i < y.len()
        invariant
            i <= x.len(),
            i <= y.len(),
            x@ == a@,
            y@ == b@,
            name_lt(a@, b@) == name_lt_from(a@, b@, i as int),
        decreases x.len() - i,
    {
        if x[i] != y[i] {
            return x[i] < y[i];
        }
        i += 1;
    }
    i < y.len()
}

fn entry_less(a: &(String, u64), b: &(String, u64)) -> (r: bool)
    ensures
        r == entry_lt((a.0@, a.1), (b.0@, b.1)),
{
    a.1 < b.1 || (a.1 == b.1 && name_less(&a.0, &b.0))
}

/// Entries as plain values.
pub open spec fn entries_view(v: Seq<(String, u64)>) -> Seq<(Seq<char>, u64)> {
    v.map_values(|e: (String, u64)| (e.0@, e.1))
}

/// Each entry sorts before every later one.
pub open spec fn strictly_sorted(v: Seq<(Seq<char>, u64)>) -> bool {
    forall|a: int, b: int| 0 <= a < b < v.len() ==> entry_lt(#[trigger] v[a], #[trigger] v[b])
}

/// No two entries share a name.
pub open spec fn distinct_names(v: Seq<(Seq<char>, u64)>) -> bool {
    forall|a: int, b: int| 0 <= a < b < v.len() ==> (#[trigger] v[a]).0 != (#[trigger] v[b]).0
}

/// Sorts entries with distinct names by cardinality, then by name.
fn sort_entries(entries: Vec<(String, u64)>) -> (r: Vec<(String, u64)>)
    requires
        distinct_names(entries_view(entries@)),
    ensures
        strictly_sorted(entries_view(r@)),
        entries_view(r@).to_multiset() == entries_view(entries@).to_multiset(),
{
    broadcast use vstd::seq_lib::group_to_multiset_ensures;

    let ghost input = entries_view(entries@);
    let mut rest = entries;
    let mut sorted: Vec<(String, u64)> = Vec::new();
    assert(entries_view(sorted@) =~= Seq::<(Seq<char>, u64)>::empty());
    while rest.len() > 0
        invariant
            strictly_sorted(entries_view(sorted@)),
            distinct_names(entries_view(rest@)),
            forall|a: int, b: int|
                0 <= a < sorted@.len() && 0 <= b < rest@.len() ==> (#[trigger] entries_view(
                    sorted@,
                )[a]).0 != (#[trigger] entries_view(rest@)[b]).0,
            entries_view(sorted@).to_multiset().add(entries_view(rest@).to_multiset())
                == input.to_multiset(),
        decreases rest.len(),
    {
        let ghost rv = entries_view(rest@);
        let ghost sv = entries_view(sorted@);
        let e = rest.pop().unwrap();
        let ghost x = (e.0@, e.1);
        assert(entries_view(rest@) =~= rv.drop_last());
        assert(rv == rv.drop_last().push(x));
        let mut p: usize = 0;
        while p < sorted.len() && !entry_less(&e, &sorted[p])
            invariant
                p <= sorted.len(),
                sv == entries_view(sorted@),
                x == (e.0@, e.1),
                forall|k: int| 0 <= k < p ==> !entry_lt(x, #[trigger] sv[k]),
            decreases sorted.len() - p,
        {
            p += 1;
        }
        sorted.insert(p, e);
        proof {
            let nv = entries_view(sorted@);
            assert(nv =~= sv.insert(p as int, x));
            assert forall|k: int| 0 <= k < sv.len() implies (#[trigger] sv[k]).0 != x.0 by {
                assert(rv[rv.len() - 1] == x);
            }
            assert forall|a: int, b: int| 0 <= a < b < nv.len() implies entry_lt(
                #[trigger] nv[a],
                #[trigger] nv[b],
            ) by {
                if b < p {
                    assert(nv[a] == sv[a]);
                    assert(nv[b] == sv[b]);
                } else if a < p && b == p {
                    lemma_entry_lt_total(x, sv[a]);
                } else if a < p && b > p {
                    assert(nv[b] == sv[b - 1]);
                    if a < b - 1 {
                    }
                } else if a == p {
                    assert(nv[b] == sv[b - 1]);
                    assert(entry_lt(x, sv[p as int]));
                    if b - 1 > p {
                        lemma_entry_lt_trans(x, sv[p as int], sv[b - 1]);
                    }
                } else {
                    assert(nv[a] == sv[a - 1]);
                    assert(nv[b] == sv[b - 1]);
                }
            }
            assert forall|a: int, b: int|
                0 <= a < nv.len() && 0 <= b < entries_view(rest@).len() implies (
                #[trigger] nv[a]).0 != (#[trigger] entries_view(rest@)[b]).0 by {
                assert(entries_view(rest@)[b] == rv[b]);
                if a < p {
                    assert(nv[a] == sv[a]);
                    assert(sv[a].0 != rv[b].0);
                } else if a > p {
                    assert(nv[a] == sv[a - 1]);
                    assert(sv[a - 1].0 != rv[b].0);
                } else {
                    assert(rv[b].0 != rv[rv.len() - 1].0);
                }
            }
            vstd::seq_lib::to_multiset_insert(sv, p as int, x);
            assert(nv.to_multiset() == sv.to_multiset().insert(x));
            vstd::seq_lib::to_multiset_build(rv.drop_last(), x);
            assert(rv.to_multiset() == rv.drop_last().to_multiset().insert(x));
            assert(sv.to_multiset().insert(x).add(rv.drop_last().to_multiset())
                =~= sv.to_multiset().add(rv.drop_last().to_multiset().insert(x)));
        }
    }
    assert(entries_view(rest@) =~= Seq::<(Seq<char>, u64)>::empty());
    assert(entries_view(sorted@).to_multiset().add(Multiset::empty()) =~= entries_view(
        sorted@,
    ).to_multiset());
    sorted
}

/// The names of `v`, in order, followed by `time`.
fn names_then_time(v: &Vec<(String, u64)>) -> (r: Vec<String>)
    ensures
        r@.len() == v@.len() + 1,
        forall|k: int| 0 <= k < v@.len() ==> (#[trigger] r@[k])@ == v@[k].0@,
        r@[v@.len() as int]@ == "time"@,
{
    let mut r: Vec<String> = Vec::new();
    let mut k: usize = 0;
    while k < v.len()
        invariant
            k <= v.len(),
            r@.len() == k,
            forall|j: int| 0 <= j < k ==> (#[trigger] r@[j])@ == v@[j].0@,
        decreases v.len() - k,
    {
        r.push(String::from_str(v[k].0.as_str()));
        k += 1;
    }
    r.push(String::from_str("time"));
    r
}

/// Tag column `name`, with a statistic, is in some chunk.
pub open spec fn is_tag_column(chunks: Seq<ChunkSummary>, name: Seq<char>) -> bool {
    has_tag(chunks, name, chunks.len() as int)
}

/// A sort key that puts columns of lower estimated cardinality first: the tag
/// columns of the chunks that have statistics, ordered by their summed
/// distinct counts (capped at `u64::MAX`) and then by name, followed by
/// `time`.
pub fn compute_sort_key(chunks: &Vec<ChunkSummary>) -> (r: Vec<String>)
    ensures
        r@.len() >= 1,
        r@[r@.len() - 1]@ == "time"@,
        forall|a: int, b: int|
            0 <= a < b < r@.len() - 1 ==> entry_lt(
                (#[trigger] r@[a]@, cardinality(chunks@, r@[a]@)),
                (#[trigger] r@[b]@, cardinality(chunks@, r@[b]@)),
            ),
        forall|a: int| 0 <= a < r@.len() - 1 ==> is_tag_column(chunks@, #[trigger] r@[a]@),
        forall|n: Seq<char>|
            is_tag_column(chunks@, n) ==> exists|a: int|
                0 <= a < r@.len() - 1 && (#[trigger] r@[a])@ == n,
{
    broadcast use vstd::seq_lib::group_to_multiset_ensures;

    let cards = collect_cardinalities(chunks);
    let ghost counts = counts_of(cards);
    let entries = cards.into_entries();
    let ghost ev = entries_view(entries@);
    assert forall|a: int, b: int| 0 <= a < b < ev.len() implies (#[trigger] ev[a]).0 != (
    #[trigger] ev[b]).0 by {
        assert(entries@[a].0@ != entries@[b].0@);
    }
    let sorted = sort_entries(entries);
    let ghost sv = entries_view(sorted@);
    let r = names_then_time(&sorted);
    proof {
        assert forall|k: int| 0 <= k < sv.len() implies is_tag_column(chunks@, (#[trigger] sv[k]).0)
            && sv[k].1 == cardinality(chunks@, sv[k].0) by {
            assert(sv.to_multiset().count(sv[k]) > 0);
            assert(ev.contains(sv[k]));
            let i = choose|i: int| 0 <= i < ev.len() && ev[i] == sv[k];
            assert(ev[i] == (entries@[i].0@, entries@[i].1));
            assert(counts.dom().contains(entries@[i].0@));
        }
        assert forall|a: int, b: int| 0 <= a < b < r@.len() - 1 implies entry_lt(
            (#[trigger] r@[a]@, cardinality(chunks@, r@[a]@)),
            (#[trigger] r@[b]@, cardinality(chunks@, r@[b]@)),
        ) by {
            assert(r@[a]@ == sv[a].0);
            assert(r@[b]@ == sv[b].0);
            assert(sv[a].1 == cardinality(chunks@, sv[a].0));
            assert(sv[b].1 == cardinality(chunks@, sv[b].0));
            assert(sv[a] == (sv[a].0, sv[a].1));
            assert(entry_lt(sv[a], sv[b]));
        }
        assert forall|a: int| 0 <= a < r@.len() - 1 implies is_tag_column(
            chunks@,
            #[trigger] r@[a]@,
        ) by {
            assert(r@[a]@ == sv[a].0);
        }
        assert forall|n: Seq<char>| is_tag_column(chunks@, n) implies exists|a: int|
            0 <= a < r@.len() - 1 && (#[trigger] r@[a])@ == n by {
            assert(counts.dom().contains(n));
            let i = choose|i: int| 0 <= i < entries@.len() && entries@[i].0@ == n;
            assert(ev[i].0 == n);
            assert(ev.contains(ev[i]));
            assert(sv.to_multiset().count(ev[i]) > 0);
            let k = choose|k: int| 0 <= k < sv.len() && sv[k] == ev[i];
            assert(r@[k]@ == sv[k].0);
        }
    }
    r
}

/// Chunk `c` has a statistic with a distinct count for every column.
pub open spec fn has_distinct_counts(c: ChunkSummary) -> bool {
    match c.distinct_counts {
        None => false,
        Some(s) => forall|k: int| 0 <= k < s@.len() ==> (#[trigger] s@[k]) is Some,
    }
}

/// Whether every chunk has statistics with distinct counts for all columns.
pub fn chunks_have_distinct_counts(chunks: &Vec<ChunkSummary>) -> (r: bool)
    ensures
        r == forall|x: int| 0 <= x < chunks@.len() ==> has_distinct_counts(#[trigger] chunks@[x]),
{
    let mut x: usize = 0;
    while x < chunks.len()
        invariant
            x <= chunks.len(),
            forall|y: int| 0 <= y < x ==> has_distinct_counts(#[trigger] chunks@[y]),
        decreases chunks.len() - x,
    {
        match &chunks[x].distinct_counts {
            None => {
                return false;
            },
            Some(stats) => {
                let mut k: usize = 0;
                while k < stats.len()
                    invariant
                        x < chunks.len(),
                        chunks@[x as int].distinct_counts == Some(*stats),
                        forall|y: int| 0 <= y < x ==> has_distinct_counts(#[trigger] chunks@[y]),
                        k <= stats.len(),
                        forall|j: int| 0 <= j < k ==> (#[trigger] stats@[j]) is Some,
                    decreases stats.len() - k,
                {
                    if stats[k].is_none() {
                        assert(stats@[k as int] is None);
                        assert(!has_distinct_counts(chunks@[x as int]));
                        return false;
                    }
                    k += 1;
                }
                assert(has_distinct_counts(chunks@[x as int]));
            },
        }
        x += 1;
    }
    true
}

/// Column `name` is a tag column of `schema`.
pub open spec fn schema_has_tag(schema: Seq<ColumnSchema>, name: Seq<char>) -> bool {
    exists|a: int| 0 <= a < schema.len() && (#[trigger] schema[a]).is_tag && schema[a].name@ == name
}

/// No two columns of `schema` share a name.
pub open spec fn unique_column_names(schema: Seq<ColumnSchema>) -> bool {
    forall|a: int, b: int|
        0 <= a < b < schema.len() ==> (#[trigger] schema[a]).name@ != (#[trigger] schema[b]).name@
}

/// Column `name` is a tag column among the first `i` of `schema`.
pub open spec fn tag_before(schema: Seq<ColumnSchema>, name: Seq<char>, i: int) -> bool {
    exists|a: int| 0 <= a < i && (#[trigger] schema[a]).is_tag && schema[a].name@ == name
}

/// The primary key of `schema`: its tag columns sorted by name, then `time`.
pub fn primary_key(schema: &Vec<ColumnSchema>) -> (r: Vec<String>)
    requires
        unique_column_names(schema@),
    ensures
        r@.len() >= 1,
        r@[r@.len() - 1]@ == "time"@,
        forall|a: int, b: int|
            0 <= a < b < r@.len() - 1 ==> name_lt(#[trigger] r@[a]@, #[trigger] r@[b]@),
        forall|a: int| 0 <= a < r@.len() - 1 ==> schema_has_tag(schema@, #[trigger] r@[a]@),
        forall|n: Seq<char>|
            schema_has_tag(schema@, n) ==> exists|a: int|
                0 <= a < r@.len() - 1 && (#[trigger] r@[a])@ == n,
{
    broadcast use vstd::seq_lib::group_to_multiset_ensures;

    let mut tags: Vec<(String, u64)> = Vec::new();
    let mut i: usize = 0;
    while i < schema.len()
        invariant
            i <= schema.len(),
            unique_column_names(schema@),
            distinct_names(entries_view(tags@)),
            forall|j: int|
                0 <= j < tags@.len() ==> (#[trigger] tags@[j]).1 == 0 && tag_before(
                    schema@,
                    tags@[j].0@,
                    i as int,
                ),
            forall|a: int|
                0 <= a < i && (#[trigger] schema@[a]).is_tag ==> exists|j: int|
                    0 <= j < tags@.len() && tags@[j].0@ == schema@[a].name@,
        decreases schema.len() - i,
    {
        if schema[i].is_tag {
            let ghost old_tags = tags@;
            tags.push((String::from_str(schema[i].name.as_str()), 0));
            proof {
                let tv = entries_view(tags@);
                assert forall|a: int, b: int| 0 <= a < b < tv.len() implies (#[trigger] tv[a]).0
                    != (#[trigger] tv[b]).0 by {
                    if b == tv.len() - 1 {
                        assert(tags@[a] == old_tags[a]);
                        assert(tag_before(schema@, old_tags[a].0@, i as int));
                        let s = choose|s: int|
                            0 <= s < i && (#[trigger] schema@[s]).is_tag && schema@[s].name@
                                == old_tags[a].0@;
                    } else {
                        assert(entries_view(old_tags)[a] == tv[a]);
                        assert(entries_view(old_tags)[b] == tv[b]);
                    }
                }
                assert forall|j: int| 0 <= j < tags@.len() implies (#[trigger] tags@[j]).1 == 0
                    && tag_before(schema@, tags@[j].0@, i + 1) by {
                    if j < old_tags.len() {
                        assert(tags@[j] == old_tags[j]);
                        assert(tag_before(schema@, old_tags[j].0@, i as int));
                        let s = choose|s: int|
                            0 <= s < i && (#[trigger] schema@[s]).is_tag && schema@[s].name@
                                == old_tags[j].0@;
                        assert(0 <= s < i + 1);
                    } else {
                        assert(schema@[i as int].name@ == tags@[j].0@);
                    }
                }
                assert forall|a: int| 0 <= a < i + 1 && (#[trigger] schema@[a]).is_tag implies exists|
                    j: int,
                | 0 <= j < tags@.len() && tags@[j].0@ == schema@[a].name@ by {
                    if a < i {
                        let j = choose|j: int|
                            0 <= j < old_tags.len() && old_tags[j].0@ == schema@[a].name@;
                        assert(tags@[j] == old_tags[j]);
                    } else {
                        assert(tags@[tags@.len() - 1].0@ == schema@[a].name@);
                    }
                }
            }
        }
        proof {
            if !schema@[i as int].is_tag {
                assert forall|j: int| 0 <= j < tags@.len() implies tag_before(
                    schema@,
                    #[trigger] tags@[j].0@,
                    i + 1,
                ) by {
                    assert(tag_before(schema@, tags@[j].0@, i as int));
                    let s = choose|s: int|
                        0 <= s < i && (#[trigger] schema@[s]).is_tag && schema@[s].name@
                            == tags@[j].0@;
                    assert(0 <= s < i + 1);
                }
            }
        }
        i += 1;
    }
    let ghost tv = entries_view(tags@);
    let sorted = sort_entries(tags);
    let ghost sv = entries_view(sorted@);
    let r = names_then_time(&sorted);
    proof {
        assert forall|k: int| 0 <= k < sv.len() implies schema_has_tag(schema@, (#[trigger] sv[k]).0)
            && sv[k].1 == 0 by {
            assert(sv.to_multiset().count(sv[k]) > 0);
            assert(tv.contains(sv[k]));
            let j = choose|j: int| 0 <= j < tv.len() && tv[j] == sv[k];
            assert(tv[j] == (tags@[j].0@, tags@[j].1));
            assert(tag_before(schema@, tags@[j].0@, schema.len() as int));
            let a = choose|a: int|
                0 <= a < schema.len() && (#[trigger] schema@[a]).is_tag && schema@[a].name@
                    == tags@[j].0@;
        }
        assert forall|a: int, b: int| 0 <= a < b < r@.len() - 1 implies name_lt(
            #[trigger] r@[a]@,
            #[trigger] r@[b]@,
        ) by {
            assert(r@[a]@ == sv[a].0);
            assert(r@[b]@ == sv[b].0);
            assert(entry_lt(sv[a], sv[b]));
        }
        assert forall|a: int| 0 <= a < r@.len() - 1 implies schema_has_tag(
            schema@,
            #[trigger] r@[a]@,
        ) by {
            assert(r@[a]@ == sv[a].0);
        }
        assert forall|n: Seq<char>| schema_has_tag(schema@, n) implies exists|a: int|
            0 <= a < r@.len() - 1 && (#[trigger] r@[a])@ == n by {
            let s = choose|s: int| 0 <= s < schema.len() && (#[trigger] schema@[s]).is_tag
                && schema@[s].name@ == n;
            let j = choose|j: int| 0 <= j < tags@.len() && tags@[j].0@ == schema@[s].name@;
            assert(tv[j].0 == n);
            assert(tv.contains(tv[j]));
            assert(sv.to_multiset().count(tv[j]) > 0);
            let k = choose|k: int| 0 <= k < sv.len() && sv[k] == tv[j];
            assert(r@[k]@ == sv[k].0);
        }
    }
    r
}

/// The sort key for `chunks` of `schema`: by estimated cardinality where
/// every chunk has distinct counts for all columns, else the primary key.
pub fn compute_sort_key_for_chunks(schema: &Vec<ColumnSchema>, chunks: &Vec<ChunkSummary>) -> (r:
    Vec<String>)
    requires
        unique_column_names(schema@),
    ensures
        r@.len() >= 1,
        r@[r@.len() - 1]@ == "time"@,
        (forall|x: int| 0 <= x < chunks@.len() ==> has_distinct_counts(#[trigger] chunks@[x]))
            ==> {
            &&& forall|a: int, b: int|
                0 <= a < b < r@.len() - 1 ==> entry_lt(
                    (#[trigger] r@[a]@, cardinality(chunks@, r@[a]@)),
                    (#[trigger] r@[b]@, cardinality(chunks@, r@[b]@)),
                )
            &&& forall|a: int| 0 <= a < r@.len() - 1 ==> is_tag_column(chunks@, #[trigger] r@[a]@)
            &&& forall|n: Seq<char>|
                is_tag_column(chunks@, n) ==> exists|a: int|
                    0 <= a < r@.len() - 1 && (#[trigger] r@[a])@ == n
        },
        !(forall|x: int| 0 <= x < chunks@.len() ==> has_distinct_counts(#[trigger] chunks@[x]))
            ==> {
            &&& forall|a: int, b: int|
                0 <= a < b < r@.len() - 1 ==> name_lt(#[trigger] r@[a]@, #[trigger] r@[b]@)
            &&& forall|a: int| 0 <= a < r@.len() - 1 ==> schema_has_tag(schema@, #[trigger] r@[a]@)
            &&& forall|n: Seq<char>|
                schema_has_tag(schema@, n) ==> exists|a: int|
                    0 <= a < r@.len() - 1 && (#[trigger] r@[a])@ == n
        },
{
    if !chunks_have_distinct_counts(chunks) {
        primary_key(schema)
    } else {
        compute_sort_key(chunks)
    }
}

} // verus!
