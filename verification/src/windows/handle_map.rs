//! A small map from window handles to the handles of what the shell created
//! for them (thumbnails, control overlays), kept in insertion order.
use vstd::prelude::*;

verus! {

/// Whether `key` has an entry.
pub open spec fn has_key(entries: Seq<(isize, isize)>, key: isize) -> bool {
    exists|i: int| 0 <= i < entries.len() && #[trigger] entries[i].0 == key
}

/// No key has two entries.
pub open spec fn keys_unique(entries: Seq<(isize, isize)>) -> bool {
    forall|i: int, j: int| 0 <= i < j < entries.len() ==> #[trigger] entries[i].0 != #[trigger] entries[j].0
}

/// The entries as a map.
pub open spec fn as_map(entries: Seq<(isize, isize)>) -> Map<isize, isize>
    decreases entries.len(),
{
    if entries.len() == 0 {
        Map::empty()
    } else {
        as_map(entries.drop_last()).insert(entries.last().0, entries.last().1)
    }
}

proof fn lemma_as_map(entries: Seq<(isize, isize)>)
    requires
        keys_unique(entries),
    ensures
        forall|k: isize| #[trigger] as_map(entries).contains_key(k) <==> has_key(entries, k),
        forall|i: int| 0 <= i < entries.len() ==> #[trigger] as_map(entries)[entries[i].0] == entries[i].1,
    decreases entries.len(),
{
    if entries.len() > 0 {
        let t = entries.drop_last();
        assert(keys_unique(t)) by {
            assert forall|i: int, j: int| 0 <= i < j < t.len() implies #[trigger] t[i].0 != #[trigger] t[j].0 by {
                assert(t[i] == entries[i] && t[j] == entries[j]);
            }
        }
        lemma_as_map(t);
        let last = entries.last();
        assert(as_map(entries) == as_map(t).insert(last.0, last.1));
        assert forall|k: isize| #[trigger] as_map(entries).contains_key(k) <==> has_key(entries, k) by {
            assert(as_map(t).contains_key(k) <==> has_key(t, k));
            if has_key(t, k) {
                let i = choose|i: int| 0 <= i < t.len() && #[trigger] t[i].0 == k;
                assert(entries[i] == t[i]);
            }
            if has_key(entries, k) && k != entries.last().0 {
                let i = choose|i: int| 0 <= i < entries.len() && #[trigger] entries[i].0 == k;
                assert(i < t.len());
                assert(t[i] == entries[i]);
            }
            if k == entries.last().0 {
                assert(entries[entries.len() - 1].0 == k);
            }
        }
        assert forall|i: int| 0 <= i < entries.len() implies #[trigger] as_map(entries)[entries[i].0] == entries[i].1 by {
            if i < entries.len() - 1 {
                assert(t[i] == entries[i]);
                assert(entries[i].0 != entries[entries.len() - 1].0);
                assert(as_map(t)[t[i].0] == t[i].1);
            }
        }
    }
}

/// The values of the entries whose flag in `keep` is clear, in order.
pub open spec fn dropped_values(entries: Seq<(isize, isize)>, keep: Seq<bool>) -> Seq<isize>
    decreases entries.len(),
{
    if entries.len() == 0 {
        Seq::empty()
    } else {
        let rest = dropped_values(entries.drop_last(), keep.take(entries.len() - 1));
        if keep[entries.len() - 1] { rest } else { rest.push(entries.last().1) }
    }
}

/// Handles keyed by window handle.
pub struct HandleMap {
    entries: Vec<(isize, isize)>,
}

impl HandleMap {
    pub closed spec fn entries_spec(&self) -> Seq<(isize, isize)> {
        self.entries@
    }

    pub open spec fn view(&self) -> Map<isize, isize> {
        as_map(self.entries_spec())
    }

    pub open spec fn wf(&self) -> bool {
        keys_unique(self.entries_spec())
    }

    pub fn new() -> (r: Self)
        ensures
            r.wf(),
            r.view() == Map::<isize, isize>::empty(),
    {
        HandleMap { entries: Vec::new() }
    }

    pub fn len(&self) -> (r: usize)
        requires
            self.wf(),
        ensures
            r == self.view().dom().len(),
    {
        proof {
            lemma_as_map_len(self.entries_spec());
        }
        self.entries.len()
    }

    /// The entry of a key.
    pub fn get(&self, key: isize) -> (r: Option<isize>)
        requires
            self.wf(),
        ensures
            r == (if self.view().contains_key(key) { Some(self.view()[key]) } else { None::<isize> }),
    {
        let mut i: usize = 0;
        while i < self.entries.len()
            invariant
                i <= self.entries@.len(),
                self.wf(),
                forall|k: int| 0 <= k < i ==> #[trigger] self.entries@[k].0 != key,
            decreases self.entries@.len() - i,
        {
            if self.entries[i].0 == key {
                proof {
                    lemma_as_map(self.entries_spec());
                    assert(self.entries_spec()[i as int].0 == key);
                }
                return Some(self.entries[i].1);
            }
            i = i + 1;
        }
        proof {
            lemma_as_map(self.entries_spec());
        }
        None
    }

    /// Adds an entry for a key that has none.
    pub fn insert(&mut self, key: isize, value: isize)
        requires
            old(self).wf(),
            !old(self).view().contains_key(key),
        ensures
            final(self).wf(),
            final(self).view() == old(self).view().insert(key, value),
    {
        proof {
            lemma_as_map(self.entries_spec());
        }
        let ghost before = self.entries@;
        self.entries.push((key, value));
        proof {
            assert(self.entries@.drop_last() =~= before);
            assert forall|i: int, j: int| 0 <= i < j < self.entries@.len() implies
                #[trigger] self.entries@[i].0 != #[trigger] self.entries@[j].0 by {
                if j == before.len() {
                    assert(self.entries@[i] == before[i]);
                    assert(!has_key(before, key));
                }
            }
        }
    }

    /// The entries in order, as pairs.
    pub fn pairs(&self) -> (r: Vec<(isize, isize)>)
        ensures
            r@ == self.entries_spec(),
    {
        let mut r: Vec<(isize, isize)> = Vec::new();
        let mut i: usize = 0;
        while i < self.entries.len()
            invariant
                i <= self.entries@.len(),
                r@ == self.entries@.take(i as int),
            decreases self.entries@.len() - i,
        {
            r.push(self.entries[i]);
            i = i + 1;
            assert(r@ =~= self.entries@.take(i as int));
        }
        assert(self.entries@.take(i as int) =~= self.entries@);
        r
    }

    /// Keeps the entries whose flag in `keep` (one per entry, in order) is
    /// set, and hands back the values of the others.
    pub fn retain(&mut self, keep: &Vec<bool>) -> (dropped: Vec<isize>)
        requires
            old(self).wf(),
            keep@.len() == old(self).entries_spec().len(),
        ensures
            final(self).wf(),
            forall|k: isize| #[trigger] final(self).view().contains_key(k) <==> (old(self).view().contains_key(k)
                && exists|i: int| 0 <= i < keep@.len() && keep@[i] && #[trigger] old(self).entries_spec()[i].0 == k),
            forall|k: isize| #[trigger] final(self).view().contains_key(k) ==> final(self).view()[k] == old(self).view()[k],
            dropped@ == dropped_values(old(self).entries_spec(), keep@),
            dropped@.len() + final(self).view().dom().len() == old(self).view().dom().len(),
    {
        let ghost before = self.entries@;
        proof {
            lemma_as_map(before);
            lemma_as_map_len(before);
        }
        let mut kept: Vec<(isize, isize)> = Vec::new();
        let mut dropped: Vec<isize> = Vec::new();
        let ghost mut src: Seq<int> = Seq::empty();
        let mut i: usize = 0;
        while i < self.entries.len()
            invariant
                self.entries@ == before,
                keep@.len() == before.len(),
                keys_unique(before),
                i <= before.len(),
                keys_unique(kept@),
                kept@.len() + dropped@.len() == i,
                dropped@ == dropped_values(before.take(i as int), keep@.take(i as int)),
                src.len() == kept@.len(),
                forall|k: int| 0 <= k < kept@.len() ==> 0 <= #[trigger] src[k] < i && keep@[src[k]] && before[src[k]] == kept@[k],
                forall|j: int| 0 <= j < i && keep@[j] ==> has_key(kept@, #[trigger] before[j].0),
            decreases before.len() - i,
        {
            let e = self.entries[i];
            proof {
                let t = before.take(i + 1);
                assert(t.drop_last() =~= before.take(i as int));
                assert(keep@.take(i + 1).take(i as int) =~= keep@.take(i as int));
                assert(t.last() == e);
                assert(keep@.take(i + 1)[i as int] == keep@[i as int]);
            }
            if keep[i] {
                let ghost kb = kept@;
                let ghost sb = src;
                kept.push(e);
                proof {
                    src = src.push(i as int);
                    assert forall|a: int, b: int| 0 <= a < b < kept@.len() implies #[trigger] kept@[a].0 != #[trigger] kept@[b].0 by {
                        if b == kb.len() {
                            assert(sb[a] < i);
                            assert(before[sb[a]] == kb[a]);
                            assert(before[sb[a]].0 != before[i as int].0);
                            assert(kept@[a] == kb[a]);
                        } else {
                            assert(kept@[a] == kb[a] && kept@[b] == kb[b]);
                        }
                    }
                    assert forall|k: int| 0 <= k < kept@.len() implies 0 <= #[trigger] src[k] < i + 1 && keep@[src[k]] && before[src[k]] == kept@[k] by {
                        if k < kb.len() {
                            assert(kept@[k] == kb[k]);
                            assert(src[k] == sb[k]);
                        }
                    }
                    assert forall|j: int| 0 <= j < i + 1 && keep@[j] implies has_key(kept@, #[trigger] before[j].0) by {
                        if j < i {
                            let k = choose|k: int| 0 <= k < kb.len() && #[trigger] kb[k].0 == before[j].0;
                            assert(kept@[k] == kb[k]);
                        } else {
                            assert(kept@[kb.len() as int] == e);
                        }
                    }
                }
            } else {
                dropped.push(e.1);
                proof {
                    assert forall|j: int| 0 <= j < i + 1 && keep@[j] implies has_key(kept@, #[trigger] before[j].0) by {
                        assert(j < i);
                    }
                }
            }
            i = i + 1;
        }
        let ghost kv = kept@;
        self.entries = kept;
        proof {
            assert(before.take(before.len() as int) =~= before);
            assert(keep@.take(before.len() as int) =~= keep@);
            lemma_as_map(kv);
            lemma_as_map_len(kv);
            assert forall|k: isize| #[trigger] as_map(kv).contains_key(k) <==> (as_map(before).contains_key(k)
                && exists|i: int| 0 <= i < keep@.len() && keep@[i] && #[trigger] before[i].0 == k) by {
                if has_key(kv, k) {
                    let m = choose|m: int| 0 <= m < kv.len() && #[trigger] kv[m].0 == k;
                    let j = src[m];
                    assert(before[j] == kv[m]);
                    assert(before[j].0 == k);
                    assert(has_key(before, k));
                }
                if exists|i: int| 0 <= i < keep@.len() && keep@[i] && #[trigger] before[i].0 == k {
                    let j = choose|i: int| 0 <= i < keep@.len() && keep@[i] && #[trigger] before[i].0 == k;
                    assert(has_key(kv, before[j].0));
                }
            }
            assert forall|k: isize| #[trigger] as_map(kv).contains_key(k) implies as_map(kv)[k] == as_map(before)[k] by {
                let m = choose|m: int| 0 <= m < kv.len() && #[trigger] kv[m].0 == k;
                let j = src[m];
                assert(before[j] == kv[m]);
                assert(as_map(kv)[kv[m].0] == kv[m].1);
                assert(as_map(before)[before[j].0] == before[j].1);
            }
        }
        dropped
    }

    /// Empties the map, handing back every value.
    pub fn drain(&mut self) -> (r: Vec<isize>)
        requires
            old(self).wf(),
        ensures
            final(self).wf(),
            final(self).view() == Map::<isize, isize>::empty(),
            r@ == old(self).entries_spec().map_values(|e: (isize, isize)| e.1),
    {
        let mut r: Vec<isize> = Vec::new();
        let mut i: usize = 0;
        while i < self.entries.len()
            invariant
                i <= self.entries@.len(),
                r@ == self.entries@.take(i as int).map_values(|e: (isize, isize)| e.1),
            decreases self.entries@.len() - i,
        {
            r.push(self.entries[i].1);
            i = i + 1;
            assert(r@ =~= self.entries@.take(i as int).map_values(|e: (isize, isize)| e.1));
        }
        assert(self.entries@.take(i as int) =~= self.entries@);
        self.entries = Vec::new();
        proof {
            assert(as_map(self.entries@) =~= Map::<isize, isize>::empty());
        }
        r
    }
}

proof fn lemma_as_map_len(entries: Seq<(isize, isize)>)
    requires
        keys_unique(entries),
    ensures
        as_map(entries).dom().finite(),
        as_map(entries).dom().len() == entries.len(),
    decreases entries.len(),
{
    if entries.len() > 0 {
        let t = entries.drop_last();
        assert(keys_unique(t)) by {
            assert forall|i: int, j: int| 0 <= i < j < t.len() implies #[trigger] t[i].0 != #[trigger] t[j].0 by {
                assert(t[i] == entries[i] && t[j] == entries[j]);
            }
        }
        lemma_as_map_len(t);
        lemma_as_map(t);
        assert(!has_key(t, entries.last().0)) by {
            if has_key(t, entries.last().0) {
                let i = choose|i: int| 0 <= i < t.len() && #[trigger] t[i].0 == entries.last().0;
                assert(entries[i] == t[i]);
            }
        }
        assert(as_map(entries).dom() =~= as_map(t).dom().insert(entries.last().0));
    }
}

} // verus!
