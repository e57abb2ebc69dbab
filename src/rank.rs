//! Ranking of processes: a stable descending order by one metric, cut to
//! the first `n` places.
use vstd::prelude::*;
use crate::snapshot::{process_views, ProcessEntry, ProcessView};

verus! {

/// In the stable descending order by `keys`, position `a` comes before
/// position `b`: a larger key first, and on equal keys the earlier position.
pub open spec fn precedes(keys: Seq<int>, a: int, b: int) -> bool {
    keys[a] > keys[b] || (keys[a] == keys[b] && a < b)
}

/// How many of the positions below `m` come before position `i`.
pub open spec fn count_preceding(keys: Seq<int>, i: int, m: int) -> nat
    decreases m,
{
    if m <= 0 {
        0
    } else {
        count_preceding(keys, i, m - 1) + if precedes(keys, m - 1, i) {
            1nat
        } else {
            0nat
        }
    }
}

/// The place of position `i` in the stable descending order by `keys`.
pub open spec fn rank_of(keys: Seq<int>, i: int) -> nat {
    count_preceding(keys, i, keys.len() as int)
}

/// A list of unsigned keys as integers.
pub open spec fn as_ints(keys: Seq<u64>) -> Seq<int> {
    keys.map_values(|k: u64| k as int)
}

/// `e` is one of the entries `p`, the one whose rank by `keys` is `t`.
pub open spec fn entry_at_rank(keys: Seq<int>, p: Seq<ProcessView>, t: int, e: ProcessView) -> bool {
    exists|i: int| 0 <= i < p.len() && rank_of(keys, i) == t && e == #[trigger] p[i]
}

/// The CPU shares of a list of processes.
pub open spec fn cpu_keys(p: Seq<ProcessView>) -> Seq<int> {
    p.map_values(|e: ProcessView| e.cpu_hundredths as int)
}

/// The resident memory of a list of processes.
pub open spec fn memory_keys(p: Seq<ProcessView>) -> Seq<int> {
    p.map_values(|e: ProcessView| e.memory_bytes as int)
}

/// How many of the first `m` flags are set.
pub open spec fn count_set(flags: Seq<bool>, m: int) -> nat
    decreases m,
{
    if m <= 0 {
        0
    } else {
        count_set(flags, m - 1) + if flags[m - 1] {
            1nat
        } else {
            0nat
        }
    }
}

proof fn lemma_count_preceding_bound(keys: Seq<int>, i: int, m: int)
    requires
        0 <= m,
    ensures
        count_preceding(keys, i, m) <= m,
        0 <= i < m ==> count_preceding(keys, i, m) < m,
    decreases m,
{
    if m > 0 {
        lemma_count_preceding_bound(keys, i, m - 1);
    }
}

proof fn lemma_count_preceding_mono(keys: Seq<int>, i: int, j: int, m: int)
    requires
        0 <= m <= keys.len(),
        0 <= i < keys.len(),
        0 <= j < keys.len(),
        precedes(keys, i, j),
    ensures
        count_preceding(keys, i, m) <= count_preceding(keys, j, m),
        i < m ==> count_preceding(keys, i, m) < count_preceding(keys, j, m),
    decreases m,
{
    if m > 0 {
        lemma_count_preceding_mono(keys, i, j, m - 1);
    }
}

/// A position that comes before another has a smaller rank.
proof fn lemma_rank_strict(keys: Seq<int>, i: int, j: int)
    requires
        0 <= i < keys.len(),
        0 <= j < keys.len(),
        precedes(keys, i, j),
    ensures
        rank_of(keys, i) < rank_of(keys, j),
{
    lemma_count_preceding_mono(keys, i, j, keys.len() as int);
}

proof fn lemma_rank_injective(keys: Seq<int>, i: int, j: int)
    requires
        0 <= i < keys.len(),
        0 <= j < keys.len(),
        rank_of(keys, i) == rank_of(keys, j),
    ensures
        i == j,
{
    if i != j {
        if precedes(keys, i, j) {
            lemma_rank_strict(keys, i, j);
        } else {
            lemma_rank_strict(keys, j, i);
        }
    }
}

proof fn lemma_count_matches_flags(keys: Seq<int>, i: int, flags: Seq<bool>, m: int)
    requires
        0 <= m <= flags.len(),
        forall|a: int| 0 <= a < m ==> precedes(keys, a, i) == flags[a],
    ensures
        count_preceding(keys, i, m) == count_set(flags, m),
    decreases m,
{
    if m > 0 {
        lemma_count_matches_flags(keys, i, flags, m - 1);
    }
}

proof fn lemma_count_set_update(flags: Seq<bool>, x: int, m: int)
    requires
        0 <= x < flags.len(),
        0 <= m <= flags.len(),
        !flags[x],
    ensures
        count_set(flags.update(x, true), m) == count_set(flags, m) + if x < m {
            1nat
        } else {
            0nat
        },
    decreases m,
{
    if m > 0 {
        lemma_count_set_update(flags, x, m - 1);
    }
}

proof fn lemma_count_set_none(flags: Seq<bool>, m: int)
    requires
        0 <= m <= flags.len(),
        forall|a: int| 0 <= a < m ==> !flags[a],
    ensures
        count_set(flags, m) == 0,
    decreases m,
{
    if m > 0 {
        lemma_count_set_none(flags, m - 1);
    }
}

proof fn lemma_count_set_all(flags: Seq<bool>, m: int)
    requires
        0 <= m <= flags.len(),
        forall|a: int| 0 <= a < m ==> flags[a],
    ensures
        count_set(flags, m) == m,
    decreases m,
{
    if m > 0 {
        lemma_count_set_all(flags, m - 1);
    }
}

fn precedes_exec(keys: &Vec<u64>, a: usize, b: usize) -> (r: bool)
    requires
        a < keys.len(),
        b < keys.len(),
    ensures
        r == precedes(as_ints(keys@), a as int, b as int),
{
    keys[a] > keys[b] || (keys[a] == keys[b] && a < b)
}

/// The positions of the first `min(n, keys.len())` places of the stable
/// descending order by `keys`, place by place.
pub fn top_positions(keys: &Vec<u64>, n: usize) -> (r: Vec<usize>)
    ensures
        r.len() == if n < keys.len() { n } else { keys.len() },
        forall|t: int|
            0 <= t < r.len() ==> r[t] < keys.len() && rank_of(
                as_ints(keys@),
                r[t] as int,
            ) == t,
        forall|i: int|
            0 <= i < keys.len() && #[trigger] rank_of(as_ints(keys@), i) < r.len() ==> r[rank_of(
                as_ints(keys@),
                i,
            ) as int] == i,
{
    let ghost ks = as_ints(keys@);
    let len = keys.len();
    let k: usize = if n < len { n } else { len };
    let mut chosen: Vec<bool> = Vec::new();
    let mut z: usize = 0;
    while z < len
        invariant
            z <= len,
            len == keys.len(),
            chosen.len() == z,
            forall|a: int| 0 <= a < z ==> !chosen[a],
        decreases len - z,
    {
        chosen.push(false);
        z = z + 1;
    }
    proof {
        lemma_count_set_none(chosen@, len as int);
    }
    let mut r: Vec<usize> = Vec::new();
    let mut t: usize = 0;
    while t < k
        invariant
            k <= len,
            len == keys.len(),
            ks == as_ints(keys@),
            t <= k,
            chosen.len() == len,
            r.len() == t,
            count_set(chosen@, len as int) == t,
            forall|c: int, u: int|
                0 <= c < len && 0 <= u < len && chosen[c] && !chosen[u] ==> precedes(ks, c, u),
            forall|s: int| 0 <= s < t ==> r[s] < len && rank_of(ks, r[s] as int) == s,
        decreases k - t,
    {
        let mut found = false;
        let mut best: usize = 0;
        let mut j: usize = 0;
        while j < len
            invariant
                len == keys.len(),
                ks == as_ints(keys@),
                chosen.len() == len,
                j <= len,
                found ==> best < j && !chosen[best as int],
                found ==> forall|u: int|
                    0 <= u < j && !chosen[u] && u != best ==> precedes(ks, best as int, u),
                !found ==> forall|u: int| 0 <= u < j ==> chosen[u],
            decreases len - j,
        {
            if !chosen[j] && (!found || precedes_exec(keys, j, best)) {
                best = j;
                found = true;
            }
            j = j + 1;
        }
        if !found {
            proof {
                lemma_count_set_all(chosen@, len as int);
            }
        }
        proof {
            assert forall|a: int| 0 <= a < len implies precedes(ks, a, best as int)
                == chosen@[a] by {
                if chosen@[a] {
                } else if a != best as int {
                    assert(precedes(ks, best as int, a));
                }
            }
            lemma_count_matches_flags(ks, best as int, chosen@, len as int);
            lemma_count_set_update(chosen@, best as int, len as int);
        }
        chosen.set(best, true);
        r.push(best);
        t = t + 1;
    }
    proof {
        assert forall|i: int|
            0 <= i < len && #[trigger] rank_of(ks, i) < r.len() implies r[rank_of(ks, i) as int]
                == i by {
            let s = rank_of(ks, i) as int;
            lemma_rank_injective(ks, i, r[s] as int);
        }
    }
    r
}

fn cpu_key_list(processes: &Vec<ProcessEntry>) -> (r: Vec<u64>)
    ensures
        as_ints(r@) == cpu_keys(process_views(processes@)),
{
    let mut r: Vec<u64> = Vec::new();
    let mut i: usize = 0;
    while i < processes.len()
        invariant
            i <= processes.len(),
            r.len() == i,
            forall|a: int| 0 <= a < i ==> r[a] == processes[a].cpu_hundredths as u64,
        decreases processes.len() - i,
    {
        r.push(processes[i].cpu_hundredths as u64);
        i = i + 1;
    }
    assert(as_ints(r@) =~= cpu_keys(process_views(processes@)));
    r
}

fn memory_key_list(processes: &Vec<ProcessEntry>) -> (r: Vec<u64>)
    ensures
        as_ints(r@) == memory_keys(process_views(processes@)),
{
    let mut r: Vec<u64> = Vec::new();
    let mut i: usize = 0;
    while i < processes.len()
        invariant
            i <= processes.len(),
            r.len() == i,
            forall|a: int| 0 <= a < i ==> r[a] == processes[a].memory_bytes,
        decreases processes.len() - i,
    {
        r.push(processes[i].memory_bytes);
        i = i + 1;
    }
    assert(as_ints(r@) =~= memory_keys(process_views(processes@)));
    r
}

/// The entries that `top_positions` picked, in its order.
fn pick(processes: &Vec<ProcessEntry>, positions: &Vec<usize>) -> (r: Vec<ProcessEntry>)
    requires
        forall|t: int| 0 <= t < positions.len() ==> positions[t] < processes.len(),
    ensures
        r.len() == positions.len(),
        forall|t: int| 0 <= t < r.len() ==> r[t]@ == processes[positions[t] as int]@,
{
    let mut r: Vec<ProcessEntry> = Vec::new();
    let mut t: usize = 0;
    while t < positions.len()
        invariant
            t <= positions.len(),
            r.len() == t,
            forall|t: int| 0 <= t < positions.len() ==> positions[t] < processes.len(),
            forall|s: int| 0 <= s < t ==> r[s]@ == processes[positions[s] as int]@,
        decreases positions.len() - t,
    {
        r.push(processes[positions[t]].duplicate());
        t = t + 1;
    }
    r
}

/// The first `n` processes in the stable descending order by CPU share:
/// `min(n, processes.len())` entries, the entry at rank `t` in place `t`.
pub fn top_by_cpu(processes: &Vec<ProcessEntry>, n: usize) -> (r: Vec<ProcessEntry>)
    ensures
        r.len() == if n < processes.len() { n } else { processes.len() },
        forall|t: int|
            0 <= t < r.len() ==> entry_at_rank(
                cpu_keys(process_views(processes@)),
                process_views(processes@),
                t,
                #[trigger] r[t]@,
            ),
        forall|i: int|
            0 <= i < processes.len() && #[trigger] rank_of(cpu_keys(process_views(processes@)), i)
                < r.len() ==> r[rank_of(cpu_keys(process_views(processes@)), i) as int]@
                == processes[i]@,
{
    let keys = cpu_key_list(processes);
    let positions = top_positions(&keys, n);
    let r = pick(processes, &positions);
    proof {
        let ks = cpu_keys(process_views(processes@));
        assert forall|t: int| 0 <= t < r.len() implies entry_at_rank(
            ks,
            process_views(processes@),
            t,
            #[trigger] r[t]@,
        ) by {
            let i = positions[t] as int;
            assert(rank_of(ks, i) == t);
            assert(process_views(processes@)[i] == processes[i]@);
        }
        assert forall|i: int| 0 <= i < processes.len() && #[trigger] rank_of(ks, i) < r.len()
            implies r[rank_of(ks, i) as int]@ == processes[i]@ by {
            assert(positions[rank_of(as_ints(keys@), i) as int] == i);
        }
    }
    r
}

/// The first `n` processes in the stable descending order by resident
/// memory: `min(n, processes.len())` entries, the entry at rank `t` in place `t`.
pub fn top_by_memory(processes: &Vec<ProcessEntry>, n: usize) -> (r: Vec<ProcessEntry>)
    ensures
        r.len() == if n < processes.len() { n } else { processes.len() },
        forall|t: int|
            0 <= t < r.len() ==> entry_at_rank(
                memory_keys(process_views(processes@)),
                process_views(processes@),
                t,
                #[trigger] r[t]@,
            ),
        forall|i: int|
            0 <= i < processes.len() && #[trigger] rank_of(
                memory_keys(process_views(processes@)),
                i,
            ) < r.len() ==> r[rank_of(memory_keys(process_views(processes@)), i) as int]@
                == processes[i]@,
{
    let keys = memory_key_list(processes);
    let positions = top_positions(&keys, n);
    let r = pick(processes, &positions);
    proof {
        let ks = memory_keys(process_views(processes@));
        assert forall|t: int| 0 <= t < r.len() implies entry_at_rank(
            ks,
            process_views(processes@),
            t,
            #[trigger] r[t]@,
        ) by {
            let i = positions[t] as int;
            assert(rank_of(ks, i) == t);
            assert(process_views(processes@)[i] == processes[i]@);
        }
        assert forall|i: int| 0 <= i < processes.len() && #[trigger] rank_of(ks, i) < r.len()
            implies r[rank_of(ks, i) as int]@ == processes[i]@ by {
            assert(positions[rank_of(as_ints(keys@), i) as int] == i);
        }
    }
    r
}

/// Every position has a place: the ranks of a list of length `len` lie
/// below `len`, and two positions never share one.
pub proof fn rank_is_a_place(keys: Seq<int>, i: int, j: int)
    requires
        0 <= i < keys.len(),
        0 <= j < keys.len(),
    ensures
        rank_of(keys, i) < keys.len(),
        rank_of(keys, i) == rank_of(keys, j) ==> i == j,
{
    lemma_count_preceding_bound(keys, i, keys.len() as int);
    if rank_of(keys, i) == rank_of(keys, j) {
        lemma_rank_injective(keys, i, j);
    }
}

/// The order is descending: an entry ranked above another has a key at
/// least as large. So no entry left out of the first `n` places has a
/// larger key than the last entry kept.
pub proof fn rank_descends(keys: Seq<int>, i: int, j: int)
    requires
        0 <= i < keys.len(),
        0 <= j < keys.len(),
        rank_of(keys, i) < rank_of(keys, j),
    ensures
        keys[i] >= keys[j],
{
    if keys[i] < keys[j] {
        lemma_rank_strict(keys, j, i);
    }
}

/// The order is stable: of two entries with equal keys, the one earlier in
/// the input is ranked first.
pub proof fn rank_is_stable(keys: Seq<int>, i: int, j: int)
    requires
        0 <= i < j < keys.len(),
        keys[i] == keys[j],
    ensures
        rank_of(keys, i) < rank_of(keys, j),
{
    lemma_rank_strict(keys, i, j);
}

/// Two processes with equal CPU share keep their input order in `top_by_cpu`.
pub proof fn top_cpu_is_stable(processes: Seq<ProcessView>, i: int, j: int)
    requires
        0 <= i < j < processes.len(),
        processes[i].cpu_hundredths == processes[j].cpu_hundredths,
    ensures
        rank_of(cpu_keys(processes), i) < rank_of(cpu_keys(processes), j),
{
    rank_is_stable(cpu_keys(processes), i, j);
}

/// A ranking of `p` by `keys`, cut to its first `len` places: the form of
/// the results of `top_by_cpu` and `top_by_memory`.
pub open spec fn is_ranking(keys: Seq<int>, p: Seq<ProcessView>, r: Seq<ProcessView>) -> bool {
    &&& r.len() <= p.len()
    &&& forall|t: int| 0 <= t < r.len() ==> entry_at_rank(keys, p, t, #[trigger] r[t])
    &&& forall|i: int|
        0 <= i < p.len() && #[trigger] rank_of(keys, i) < r.len() ==> r[rank_of(keys, i) as int]
            == p[i]
}

/// Ranking is deterministic: over the same entries, two rankings of the same
/// length are equal, so two runs over one snapshot list the same processes
/// in the same order.
pub proof fn ranking_is_determined(
    keys: Seq<int>,
    p: Seq<ProcessView>,
    r1: Seq<ProcessView>,
    r2: Seq<ProcessView>,
)
    requires
        is_ranking(keys, p, r1),
        is_ranking(keys, p, r2),
        r1.len() == r2.len(),
    ensures
        r1 == r2,
{
    assert forall|t: int| 0 <= t < r1.len() implies r1[t] == r2[t] by {
        assert(entry_at_rank(keys, p, t, r1[t]));
        let i = choose|i: int| 0 <= i < p.len() && rank_of(keys, i) == t && r1[t] == #[trigger] p[i];
        assert(r2[rank_of(keys, i) as int] == p[i]);
    }
    assert(r1 =~= r2);
}

/// A ranking by CPU share (such as `top_by_cpu` returns) holds only
/// entries of the process list, and a process that it leaves out has a CPU
/// share no larger than that of its last entry.
pub proof fn top_cpu_bounds_the_rest(p: Seq<ProcessView>, r: Seq<ProcessView>, i: int)
    requires
        is_ranking(cpu_keys(p), p, r),
        r.len() > 0,
        0 <= i < p.len(),
        rank_of(cpu_keys(p), i) >= r.len(),
    ensures
        forall|t: int| 0 <= t < r.len() ==> p.contains(#[trigger] r[t]),
        p[i].cpu_hundredths <= r[r.len() - 1].cpu_hundredths,
{
    let ks = cpu_keys(p);
    assert forall|t: int| 0 <= t < r.len() implies p.contains(#[trigger] r[t]) by {
        assert(entry_at_rank(ks, p, t, r[t]));
        let j = choose|j: int| 0 <= j < p.len() && rank_of(ks, j) == t && r[t] == #[trigger] p[j];
        assert(p[j] == r[t]);
    }
    let last = r.len() - 1;
    assert(entry_at_rank(ks, p, last, r[last]));
    let j = choose|j: int| 0 <= j < p.len() && rank_of(ks, j) == last && r[last] == #[trigger] p[j];
    rank_descends(ks, j, i);
}

} // verus!
