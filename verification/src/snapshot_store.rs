//! The gateway's snapshot store: per web namespace, the latest value of every input
//! published to it and a sequence number that counts the updates.
use vstd::prelude::*;
use crate::text::str_eq;

verus! {

struct StoreEntry<V> {
    namespace: String,
    key: String,
    value: V,
}

struct SequenceEntry {
    namespace: String,
    sequence: u64,
}

/// Latest value per (namespace, key) and an update counter per namespace.
pub struct SnapshotStore<V> {
    entries: Vec<StoreEntry<V>>,
    sequences: Vec<SequenceEntry>,
}

impl<V> SnapshotStore<V> {
    spec fn has_entry(&self, ns: Seq<char>, key: Seq<char>) -> bool {
        exists|j: int|
            0 <= j < self.entries@.len() && self.entries@[j].namespace@ == ns
                && self.entries@[j].key@ == key
    }

    spec fn has_sequence(&self, ns: Seq<char>) -> bool {
        exists|i: int| 0 <= i < self.sequences@.len() && self.sequences@[i].namespace@ == ns
    }

    /// The store's internal consistency: every (namespace, key) and every namespace
    /// counter appears once.
    pub closed spec fn wf(&self) -> bool {
        &&& forall|a: int, b: int|
            0 <= a < self.entries@.len() && 0 <= b < self.entries@.len() && a != b
                && #[trigger] self.entries@[a].namespace@ == #[trigger] self.entries@[b].namespace@
                ==> self.entries@[a].key@ != self.entries@[b].key@
        &&& forall|a: int, b: int|
            0 <= a < self.sequences@.len() && 0 <= b < self.sequences@.len() && a != b
                ==> #[trigger] self.sequences@[a].namespace@ != #[trigger] self.sequences@[b].namespace@
    }

    /// The latest value stored for `key` in namespace `ns`.
    pub closed spec fn value(&self, ns: Seq<char>, key: Seq<char>) -> Option<V> {
        if self.has_entry(ns, key) {
            Some(
                self.entries@[choose|j: int|
                    0 <= j < self.entries@.len() && self.entries@[j].namespace@ == ns
                        && self.entries@[j].key@ == key].value,
            )
        } else {
            None
        }
    }

    /// How many updates namespace `ns` has received.
    pub closed spec fn sequence_of(&self, ns: Seq<char>) -> nat {
        if self.has_sequence(ns) {
            self.sequences@[choose|i: int|
                0 <= i < self.sequences@.len() && self.sequences@[i].namespace@ == ns].sequence as nat
        } else {
            0
        }
    }

    proof fn lemma_value_at(&self, j: int)
        requires
            self.wf(),
            0 <= j < self.entries@.len(),
        ensures
            self.value(self.entries@[j].namespace@, self.entries@[j].key@) == Some(self.entries@[j].value),
    {
        let ns = self.entries@[j].namespace@;
        let key = self.entries@[j].key@;
        assert(self.has_entry(ns, key));
        let c = choose|c: int|
            0 <= c < self.entries@.len() && self.entries@[c].namespace@ == ns && self.entries@[c].key@
                == key;
        if c != j {
            assert(self.entries@[c].namespace@ == self.entries@[j].namespace@);
        }
    }

    proof fn lemma_sequence_at(&self, i: int)
        requires
            self.wf(),
            0 <= i < self.sequences@.len(),
        ensures
            self.sequence_of(self.sequences@[i].namespace@) == self.sequences@[i].sequence as nat,
    {
        let ns = self.sequences@[i].namespace@;
        assert(self.has_sequence(ns));
        let c = choose|c: int| 0 <= c < self.sequences@.len() && self.sequences@[c].namespace@ == ns;
        if c != i {
            assert(self.sequences@[c].namespace@ != self.sequences@[i].namespace@);
        }
    }

    /// An empty store.
    pub fn new() -> (res: Self)
        ensures
            res.wf(),
            forall|ns: Seq<char>, key: Seq<char>| #[trigger] res.value(ns, key) is None,
            forall|ns: Seq<char>| #[trigger] res.sequence_of(ns) == 0,
    {
        SnapshotStore { entries: Vec::new(), sequences: Vec::new() }
    }

    fn find_entry(&self, ns: &str, key: &str) -> (res: Option<usize>)
        ensures
            match res {
                Some(j) => j < self.entries@.len() && self.entries@[j as int].namespace@ == ns@
                    && self.entries@[j as int].key@ == key@,
                None => !self.has_entry(ns@, key@),
            },
    {
        let mut j: usize = 0;
        while j < self.entries.len()
            invariant
                j <= self.entries@.len(),
                forall|m: int|
                    0 <= m < j ==> !(self.entries@[m].namespace@ == ns@ && self.entries@[m].key@
                        == key@),
            decreases self.entries@.len() - j,
        {
            if str_eq(self.entries[j].namespace.as_str(), ns) && str_eq(
                self.entries[j].key.as_str(),
                key,
            ) {
                return Some(j);
            }
            j += 1;
        }
        None
    }

    fn find_sequence(&self, ns: &str) -> (res: Option<usize>)
        ensures
            match res {
                Some(i) => i < self.sequences@.len() && self.sequences@[i as int].namespace@ == ns@,
                None => !self.has_sequence(ns@),
            },
    {
        let mut i: usize = 0;
        while i < self.sequences.len()
            invariant
                i <= self.sequences@.len(),
                forall|m: int| 0 <= m < i ==> self.sequences@[m].namespace@ != ns@,
            decreases self.sequences@.len() - i,
        {
            if str_eq(self.sequences[i].namespace.as_str(), ns) {
                return Some(i);
            }
            i += 1;
        }
        None
    }

    /// The latest value stored for `key` in namespace `ns`.
    pub fn get(&self, ns: &str, key: &str) -> (res: Option<&V>)
        requires
            self.wf(),
        ensures
            match res {
                Some(v) => self.value(ns@, key@) == Some(*v),
                None => self.value(ns@, key@) is None,
            },
    {
        match self.find_entry(ns, key) {
            Some(j) => {
                proof {
                    self.lemma_value_at(j as int);
                }
                Some(&self.entries[j].value)
            },
            None => None,
        }
    }

    /// How many updates namespace `ns` has received.
    pub fn sequence(&self, ns: &str) -> (res: u64)
        requires
            self.wf(),
        ensures
            res as nat == self.sequence_of(ns@),
    {
        match self.find_sequence(ns) {
            Some(i) => {
                proof {
                    self.lemma_sequence_at(i as int);
                }
                self.sequences[i].sequence
            },
            None => 0,
        }
    }

    spec fn key_within(&self, ns: Seq<char>, bound: int, key: Seq<char>) -> bool {
        exists|m: int|
            0 <= m < bound && self.entries@[m].namespace@ == ns && self.entries@[m].key@ == key
    }

    /// The keys stored in namespace `ns`, each once.
    pub fn keys(&self, ns: &str) -> (res: Vec<String>)
        requires
            self.wf(),
        ensures
            forall|a: int, b: int|
                0 <= a < res@.len() && 0 <= b < res@.len() && a != b ==> #[trigger] res@[a]@
                    != #[trigger] res@[b]@,
            forall|key: Seq<char>|
                (exists|a: int| 0 <= a < res@.len() && #[trigger] res@[a]@ == key) <==> self.value(
                    ns@,
                    key,
                ) is Some,
    {
        let mut res: Vec<String> = Vec::new();
        let mut j: usize = 0;
        while j < self.entries.len()
            invariant
                self.wf(),
                j <= self.entries@.len(),
                forall|a: int, b: int|
                    0 <= a < res@.len() && 0 <= b < res@.len() && a != b ==> #[trigger] res@[a]@
                        != #[trigger] res@[b]@,
                forall|a: int| 0 <= a < res@.len() ==> self.key_within(ns@, j as int, #[trigger] res@[a]@),
                forall|m: int|
                    0 <= m < j && self.entries@[m].namespace@ == ns@ ==> exists|a: int|
                        0 <= a < res@.len() && #[trigger] res@[a]@ == self.entries@[m].key@,
            decreases self.entries@.len() - j,
        {
            let ghost old_res = res@;
            if str_eq(self.entries[j].namespace.as_str(), ns) {
                let k = self.entries[j].key.clone();
                proof {
                    assert forall|a: int| 0 <= a < res@.len() implies res@[a]@ != k@ by {
                        assert(self.key_within(ns@, j as int, res@[a]@));
                        let m = choose|m: int|
                            0 <= m < j && self.entries@[m].namespace@ == ns@ && self.entries@[m].key@
                                == res@[a]@;
                        assert(self.entries@[m].namespace@ == self.entries@[j as int].namespace@);
                    }
                }
                res.push(k);
                proof {
                    assert forall|a: int| 0 <= a < res@.len() implies self.key_within(ns@, j + 1, #[trigger] res@[a]@) by {
                        if a < res@.len() - 1 {
                            assert(res@[a] == old_res[a]);
                            assert(self.key_within(ns@, j as int, old_res[a]@));
                            let m = choose|m: int|
                                0 <= m < j && self.entries@[m].namespace@ == ns@ && self.entries@[m].key@
                                    == old_res[a]@;
                            assert(0 <= m < j + 1);
                        } else {
                            assert(res@[a]@ == self.entries@[j as int].key@);
                        }
                    }
                    assert forall|m: int|
                        0 <= m < j + 1 && self.entries@[m].namespace@ == ns@ implies exists|a: int|
                        0 <= a < res@.len() && #[trigger] res@[a]@ == self.entries@[m].key@ by {
                        if m < j {
                            let a = choose|a: int|
                                0 <= a < old_res.len() && #[trigger] old_res[a]@ == self.entries@[m].key@;
                            assert(res@[a] == old_res[a]);
                        } else {
                            assert(res@[res@.len() - 1]@ == self.entries@[m].key@);
                        }
                    }
                }
            } else {
                proof {
                    assert forall|a: int| 0 <= a < res@.len() implies self.key_within(ns@, j + 1, #[trigger] res@[a]@) by {
                        assert(self.key_within(ns@, j as int, res@[a]@));
                        let m = choose|m: int|
                            0 <= m < j && self.entries@[m].namespace@ == ns@ && self.entries@[m].key@
                                == res@[a]@;
                        assert(0 <= m < j + 1);
                    }
                }
            }
            j += 1;
        }
        proof {
            assert forall|key: Seq<char>|
                (exists|a: int| 0 <= a < res@.len() && #[trigger] res@[a]@ == key) <==> self.value(
                    ns@,
                    key,
                ) is Some by {
                if exists|a: int| 0 <= a < res@.len() && #[trigger] res@[a]@ == key {
                    let a = choose|a: int| 0 <= a < res@.len() && #[trigger] res@[a]@ == key;
                    assert(self.key_within(ns@, self.entries@.len() as int, res@[a]@));
                    let m = choose|m: int|
                        0 <= m < self.entries@.len() && self.entries@[m].namespace@ == ns@
                            && self.entries@[m].key@ == res@[a]@;
                    assert(self.has_entry(ns@, key));
                }
                if self.value(ns@, key) is Some {
                    let m = choose|m: int|
                        0 <= m < self.entries@.len() && self.entries@[m].namespace@ == ns@
                            && self.entries@[m].key@ == key;
                    assert(exists|a: int| 0 <= a < res@.len() && #[trigger] res@[a]@ == self.entries@[m].key@);
                }
            }
        }
        res
    }

    /// Stores the latest value of `key` in namespace `ns` and counts one update of `ns`.
    pub fn update(&mut self, ns: &str, key: &str, value: V)
        requires
            old(self).wf(),
            old(self).sequence_of(ns@) < u64::MAX,
        ensures
            final(self).wf(),
            final(self).value(ns@, key@) == Some(value),
            forall|n: Seq<char>, k: Seq<char>|
                !(n == ns@ && k == key@) ==> #[trigger] final(self).value(n, k) == old(self).value(n, k),
            final(self).sequence_of(ns@) == old(self).sequence_of(ns@) + 1,
            forall|n: Seq<char>| n != ns@ ==> #[trigger] final(self).sequence_of(n) == old(self).sequence_of(n),
    {
        let ghost before = *self;
        let found = self.find_entry(ns, key);
        let entry = StoreEntry { namespace: String::from_str(ns), key: String::from_str(key), value };
        match found {
            Some(j) => {
                self.entries.set(j, entry);
            },
            None => {
                self.entries.push(entry);
            },
        }
        proof {
            assert(self.sequences@ == before.sequences@);
            assert forall|a: int, b: int|
                0 <= a < self.entries@.len() && 0 <= b < self.entries@.len() && a != b
                    && #[trigger] self.entries@[a].namespace@ == #[trigger] self.entries@[b].namespace@
                    implies self.entries@[a].key@ != self.entries@[b].key@ by {
                if a < before.entries@.len() && b < before.entries@.len() {
                    if found is Some && (a == found->0 || b == found->0) {
                        let j = found->0 as int;
                        let o = if a == j { b } else { a };
                        assert(before.entries@[o] == self.entries@[o]);
                        assert(before.entries@[j].namespace@ == before.entries@[o].namespace@);
                    } else {
                        assert(before.entries@[a] == self.entries@[a]);
                        assert(before.entries@[b] == self.entries@[b]);
                    }
                } else {
                    let o = if a < before.entries@.len() { a } else { b };
                    assert(before.entries@[o] == self.entries@[o]);
                }
            }
        }
        let found_seq = self.find_sequence(ns);
        match found_seq {
            Some(i) => {
                proof {
                    before.lemma_sequence_at(i as int);
                }
                let next = self.sequences[i].sequence + 1;
                self.sequences.set(i, SequenceEntry { namespace: String::from_str(ns), sequence: next });
            },
            None => {
                self.sequences.push(SequenceEntry { namespace: String::from_str(ns), sequence: 1 });
            },
        }
        proof {
            assert(self.entries@.len() >= before.entries@.len());
            assert forall|a: int, b: int|
                0 <= a < self.sequences@.len() && 0 <= b < self.sequences@.len() && a != b
                    implies #[trigger] self.sequences@[a].namespace@ != #[trigger] self.sequences@[b].namespace@ by {
                if a < before.sequences@.len() && b < before.sequences@.len() {
                    if found_seq is Some && (a == found_seq->0 || b == found_seq->0) {
                        let i = found_seq->0 as int;
                        let o = if a == i { b } else { a };
                        assert(before.sequences@[o] == self.sequences@[o]);
                    } else {
                        assert(before.sequences@[a] == self.sequences@[a]);
                        assert(before.sequences@[b] == self.sequences@[b]);
                    }
                } else {
                    let o = if a < before.sequences@.len() { a } else { b };
                    assert(before.sequences@[o] == self.sequences@[o]);
                }
            }
            let idx = match found { Some(j) => j as int, None => before.entries@.len() as int };
            assert(self.entries@[idx].namespace@ == ns@ && self.entries@[idx].key@ == key@);
            self.lemma_value_at(idx);
            assert forall|n: Seq<char>, k: Seq<char>|
                !(n == ns@ && k == key@) implies #[trigger] self.value(n, k) == before.value(n, k) by {
                if before.has_entry(n, k) {
                    let m = choose|m: int|
                        0 <= m < before.entries@.len() && before.entries@[m].namespace@ == n
                            && before.entries@[m].key@ == k;
                    assert(m != idx);
                    assert(self.entries@[m] == before.entries@[m]);
                    before.lemma_value_at(m);
                    self.lemma_value_at(m);
                } else if self.has_entry(n, k) {
                    let m = choose|m: int|
                        0 <= m < self.entries@.len() && self.entries@[m].namespace@ == n
                            && self.entries@[m].key@ == k;
                    assert(m != idx);
                    assert(self.entries@[m] == before.entries@[m]);
                }
            }
            let sidx = match found_seq { Some(i) => i as int, None => before.sequences@.len() as int };
            self.lemma_sequence_at(sidx);
            if found_seq is None {
                assert(!before.has_sequence(ns@));
            }
            assert forall|n: Seq<char>| n != ns@ implies #[trigger] self.sequence_of(n) == before.sequence_of(n) by {
                if before.has_sequence(n) {
                    let m = choose|m: int| 0 <= m < before.sequences@.len() && before.sequences@[m].namespace@ == n;
                    assert(m != sidx);
                    assert(self.sequences@[m] == before.sequences@[m]);
                    before.lemma_sequence_at(m);
                    self.lemma_sequence_at(m);
                } else if self.has_sequence(n) {
                    let m = choose|m: int| 0 <= m < self.sequences@.len() && self.sequences@[m].namespace@ == n;
                    assert(m != sidx);
                    assert(self.sequences@[m] == before.sequences@[m]);
                }
            }
        }
    }
}

} // verus!
