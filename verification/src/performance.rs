//! The shell's memory budget: the process tree it owns and the working set
//! measured against the idle target and the hard limit.
use vstd::prelude::*;

verus! {

pub const TARGET_IDLE_MB: u64 = 100;
pub const HARD_LIMIT_MB: u64 = 300;

/// Memory use of the shell's process tree.
#[derive(Clone, Copy, Debug, PartialEq, Eq, Structural)]
pub struct MemorySnapshot {
    pub working_set_mb: u64,
    pub process_count: usize,
    pub target_idle_mb: u64,
    pub hard_limit_mb: u64,
    pub within_hard_limit: bool,
}

/// `tree` holds `root` and every process whose parent it holds, by the
/// (process, parent) pairs of a process snapshot.
pub open spec fn closed_tree(tree: Set<u32>, rel: Seq<(u32, u32)>, root: u32) -> bool {
    tree.contains(root) && forall|i: int|
        0 <= i < rel.len() && tree.contains((#[trigger] rel[i]).1) ==> tree.contains(rel[i].0)
}

/// Every element of `v` is in `t`.
pub open spec fn within(v: Seq<u32>, t: Set<u32>) -> bool {
    forall|k: int| 0 <= k < v.len() ==> t.contains(#[trigger] v[k])
}

/// The number of pairs whose process is not in `tree`.
pub open spec fn missing(rel: Seq<(u32, u32)>, tree: Seq<u32>) -> nat
    decreases rel.len(),
{
    if rel.len() == 0 {
        0
    } else {
        missing(rel.drop_last(), tree) + if tree.contains(rel.last().0) { 0nat } else { 1nat }
    }
}

proof fn lemma_missing_shrinks(rel: Seq<(u32, u32)>, a: Seq<u32>, b: Seq<u32>, i: int)
    requires
        forall|x: u32| a.contains(x) ==> b.contains(x),
    ensures
        missing(rel, b) <= missing(rel, a),
        0 <= i < rel.len() && !a.contains(rel[i].0) && b.contains(rel[i].0) ==> missing(rel, b) < missing(rel, a),
    decreases rel.len(),
{
    if rel.len() > 0 {
        let j = if i == rel.len() - 1 { -1 } else { i };
        lemma_missing_shrinks(rel.drop_last(), a, b, j);
        if 0 <= i < rel.len() - 1 {
            assert(rel.drop_last()[i] == rel[i]);
        }
    }
}

fn contains_u32(v: &Vec<u32>, x: u32) -> (r: bool)
    ensures
        r == v@.contains(x),
{
    let mut i: usize = 0;
    while i < v.len()
        invariant
            i <= v@.len(),
            forall|k: int| 0 <= k < i ==> v@[k] != x,
        decreases v@.len() - i,
    {
        if v[i] == x {
            return true;
        }
        i = i + 1;
    }
    false
}

/// The processes of the shell's tree: the least set that holds `root` and
/// every process whose parent it holds; each listed once.
pub fn process_tree(root: u32, relationships: &Vec<(u32, u32)>) -> (r: Vec<u32>)
    ensures
        r@.no_duplicates(),
        closed_tree(r@.to_set(), relationships@, root),
        forall|t: Set<u32>| #[trigger] closed_tree(t, relationships@, root) ==> within(r@, t),
{
    let ghost rel = relationships@;
    let mut tree: Vec<u32> = Vec::new();
    tree.push(root);
    assert(tree@[0] == root);
    let mut changed = true;
    while changed
        invariant
            rel == relationships@,
            tree@.no_duplicates(),
            tree@.contains(root),
            forall|t: Set<u32>| #[trigger] closed_tree(t, rel, root) ==> within(tree@, t),
            !changed ==> forall|j: int| 0 <= j < rel.len() && tree@.contains((#[trigger] rel[j]).1)
                ==> tree@.contains(rel[j].0),
        decreases missing(rel, tree@) + if changed { 1nat } else { 0nat },
    {
        changed = false;
        let ghost start = tree@;
        let mut i: usize = 0;
        while i < relationships.len()
            invariant
                rel == relationships@,
                i <= rel.len(),
                tree@.no_duplicates(),
                tree@.contains(root),
                forall|x: u32| start.contains(x) ==> tree@.contains(x),
                forall|t: Set<u32>| #[trigger] closed_tree(t, rel, root) ==> within(tree@, t),
                !changed ==> tree@ == start,
                !changed ==> forall|j: int| 0 <= j < i && tree@.contains((#[trigger] rel[j]).1)
                    ==> tree@.contains(rel[j].0),
                changed ==> missing(rel, tree@) < missing(rel, start),
            decreases rel.len() - i,
        {
            let (pid, parent) = relationships[i];
            if contains_u32(&tree, parent) && !contains_u32(&tree, pid) {
                let ghost before = tree@;
                tree.push(pid);
                proof {
                    assert forall|x: u32| before.contains(x) implies tree@.contains(x) by {
                        let k = choose|k: int| 0 <= k < before.len() && before[k] == x;
                        assert(tree@[k] == x);
                    }
                    assert(tree@[tree@.len() - 1] == pid);
                    assert forall|t: Set<u32>| #[trigger] closed_tree(t, rel, root) implies within(tree@, t) by {
                        assert(within(before, t));
                        let k = choose|k: int| 0 <= k < before.len() && before[k] == parent;
                        assert(t.contains(before[k]));
                        assert(rel[i as int] == (pid, parent));
                        assert forall|m: int| 0 <= m < tree@.len() implies t.contains(#[trigger] tree@[m]) by {
                            if m < before.len() {
                                assert(tree@[m] == before[m]);
                            }
                        }
                    }
                    assert forall|a: int, b: int| 0 <= a < b < tree@.len() implies tree@[a] != tree@[b] by {
                        if b == tree@.len() - 1 {
                            assert(before[a] == tree@[a]);
                        }
                    }
                    assert(!start.contains(pid));
                    assert(rel[i as int].0 == pid);
                    lemma_missing_shrinks(rel, start, tree@, i as int);
                }
                changed = true;
            }
            i = i + 1;
        }
    }
    proof {
        assert forall|j: int| 0 <= j < rel.len() && tree@.to_set().contains((#[trigger] rel[j]).1)
            implies tree@.to_set().contains(rel[j].0) by {
            assert(tree@.contains(rel[j].1));
        }
        assert(tree@.to_set().contains(root));
    }
    tree
}


/// Total of the working sets that could be read.
pub open spec fn readable_total(sets: Seq<Option<u64>>) -> int
    decreases sets.len(),
{
    if sets.len() == 0 {
        0
    } else {
        readable_total(sets.drop_last()) + match sets.last() {
            Some(v) => v as int,
            None => 0,
        }
    }
}

pub const MIB: u64 = 1024 * 1024;

/// The snapshot of a process tree of `process_count` processes whose working
/// sets (in bytes) read as `working_sets`; unreadable ones count as nothing.
/// The total is rounded up to whole MiB.
pub fn snapshot(process_count: usize, working_sets: &Vec<Option<u64>>) -> (r: MemorySnapshot)
    requires
        readable_total(working_sets@) <= u64::MAX,
    ensures
        r.working_set_mb == (readable_total(working_sets@) + MIB - 1) / (MIB as int),
        r.process_count == process_count,
        r.target_idle_mb == TARGET_IDLE_MB,
        r.hard_limit_mb == HARD_LIMIT_MB,
        r.within_hard_limit == (r.working_set_mb <= HARD_LIMIT_MB),
{
    let mut bytes: u64 = 0;
    let mut i: usize = 0;
    while i < working_sets.len()
        invariant
            i <= working_sets@.len(),
            bytes == readable_total(working_sets@.take(i as int)),
            readable_total(working_sets@) <= u64::MAX,
        decreases working_sets@.len() - i,
    {
        proof {
            assert(working_sets@.take(i + 1).drop_last() =~= working_sets@.take(i as int));
            lemma_total_prefix(working_sets@, i + 1);
        }
        match working_sets[i] {
            Some(v) => bytes = bytes + v,
            None => {},
        }
        i = i + 1;
    }
    proof {
        assert(working_sets@.take(i as int) =~= working_sets@);
    }
    let mb: u64 = bytes / MIB + if bytes % MIB != 0 { 1 } else { 0 };
    proof {
        assert(mb == (bytes + MIB - 1) / (MIB as int)) by (nonlinear_arith)
            requires
                mb == bytes / MIB + if bytes % MIB != 0 { 1int } else { 0int },
                MIB == 1048576,
        ;
    }
    MemorySnapshot {
        working_set_mb: mb,
        process_count,
        target_idle_mb: TARGET_IDLE_MB,
        hard_limit_mb: HARD_LIMIT_MB,
        within_hard_limit: mb <= HARD_LIMIT_MB,
    }
}

proof fn lemma_total_prefix(s: Seq<Option<u64>>, k: int)
    requires
        0 <= k <= s.len(),
    ensures
        readable_total(s.take(k)) <= readable_total(s),
        readable_total(s.take(k)) >= 0,
    decreases s.len() - k,
{
    if k < s.len() {
        lemma_total_prefix(s, k + 1);
        assert(s.take(k + 1).drop_last() =~= s.take(k));
    } else {
        assert(s.take(k) =~= s);
    }
    lemma_total_nonneg(s.take(k));
}

proof fn lemma_total_nonneg(s: Seq<Option<u64>>)
    ensures
        readable_total(s) >= 0,
    decreases s.len(),
{
    if s.len() > 0 {
        lemma_total_nonneg(s.drop_last());
    }
}

/// The hard limit leaves headroom above the idle target.
pub proof fn lemma_budget_headroom()
    ensures
        HARD_LIMIT_MB > TARGET_IDLE_MB,
{
}

} // verus!
