//! A map from text keys to values kept as a list sorted by key, as the nodes' persisted
//! configurations keep their per-camera entries (iteration is in key order).
use vstd::prelude::*;
use crate::text::{seq_lt, str_eq, str_lt};

verus! {

// ---------------------------------------------------------------------------------------
// The order of keys
// ---------------------------------------------------------------------------------------

pub proof fn lemma_lt_irreflexive(a: Seq<char>)
    ensures
        !seq_lt(a, a),
    decreases a.len(),
{
    if a.len() > 0 {
        lemma_lt_irreflexive(a.drop_first());
    }
}

pub proof fn lemma_lt_asymmetric(a: Seq<char>, b: Seq<char>)
    ensures
        !(seq_lt(a, b) && seq_lt(b, a)),
    decreases a.len(),
{
    if a.len() > 0 && b.len() > 0 && a[0] == b[0] {
        lemma_lt_asymmetric(a.drop_first(), b.drop_first());
    }
}

pub proof fn lemma_lt_total(a: Seq<char>, b: Seq<char>)
    ensures
        a == b || seq_lt(a, b) || seq_lt(b, a),
    decreases a.len(),
{
    if a.len() > 0 && b.len() > 0 {
        if a[0] == b[0] {
            lemma_lt_total(a.drop_first(), b.drop_first());
            if a.drop_first() == b.drop_first() {
                assert(a =~= seq![a[0]] + a.drop_first());
                assert(b =~= seq![b[0]] + b.drop_first());
            }
        } else {
            assert((a[0] as int) != (b[0] as int));
        }
    } else if a.len() == 0 && b.len() == 0 {
        assert(a =~= b);
    }
}

pub proof fn lemma_lt_transitive(a: Seq<char>, b: Seq<char>, c: Seq<char>)
    requires
        seq_lt(a, b),
        seq_lt(b, c),
    ensures
        seq_lt(a, c),
    decreases a.len(),
{
    if a.len() > 0 && b.len() > 0 && c.len() > 0 && a[0] == b[0] && b[0] == c[0] {
        lemma_lt_transitive(a.drop_first(), b.drop_first(), c.drop_first());
    }
}

// ---------------------------------------------------------------------------------------
// The list
// ---------------------------------------------------------------------------------------

/// Entries sorted by key, each key once.
pub struct KeyedList<T> {
    entries: Vec<(String, T)>,
}

pub open spec fn keys_sorted<T>(s: Seq<(String, T)>) -> bool {
    forall|i: int, j: int| 0 <= i < j < s.len() ==> seq_lt(#[trigger] s[i].0@, #[trigger] s[j].0@)
}

pub open spec fn has_key<T>(s: Seq<(String, T)>, k: Seq<char>) -> bool {
    exists|i: int| 0 <= i < s.len() && #[trigger] s[i].0@ == k
}

pub open spec fn index_of<T>(s: Seq<(String, T)>, k: Seq<char>) -> int {
    choose|i: int| 0 <= i < s.len() && #[trigger] s[i].0@ == k
}

/// The map a sorted list stands for.
pub open spec fn map_of<T>(s: Seq<(String, T)>) -> Map<Seq<char>, T> {
    Map::new(|k: Seq<char>| has_key(s, k), |k: Seq<char>| s[index_of(s, k)].1)
}

proof fn lemma_unique_index<T>(s: Seq<(String, T)>, i: int, j: int)
    requires
        keys_sorted(s),
        0 <= i < s.len(),
        0 <= j < s.len(),
        s[i].0@ == s[j].0@,
    ensures
        i == j,
{
    if i < j {
        assert(seq_lt(s[i].0@, s[j].0@));
        lemma_lt_irreflexive(s[i].0@);
    } else if j < i {
        assert(seq_lt(s[j].0@, s[i].0@));
        lemma_lt_irreflexive(s[i].0@);
    }
}

proof fn lemma_index_of<T>(s: Seq<(String, T)>, i: int)
    requires
        keys_sorted(s),
        0 <= i < s.len(),
    ensures
        has_key(s, s[i].0@),
        index_of(s, s[i].0@) == i,
        map_of(s).dom().contains(s[i].0@),
        map_of(s)[s[i].0@] == s[i].1,
{
    let k = s[i].0@;
    assert(has_key(s, k));
    let c = index_of(s, k);
    lemma_unique_index(s, c, i);
}

impl<T> KeyedList<T> {
    pub closed spec fn wf(&self) -> bool {
        keys_sorted(self.entries@)
    }

    /// The map of keys to values.
    pub closed spec fn view(&self) -> Map<Seq<char>, T> {
        map_of(self.entries@)
    }

    /// The keys in the order the entries are kept (ascending).
    pub closed spec fn key_order(&self) -> Seq<Seq<char>> {
        self.entries@.map_values(|e: (String, T)| e.0@)
    }

    /// The values in key order.
    pub closed spec fn value_order(&self) -> Seq<T> {
        self.entries@.map_values(|e: (String, T)| e.1)
    }

    /// The list in order, the keys ascending and each once, standing for the map.
    pub proof fn lemma_order(&self)
        requires
            self.wf(),
        ensures
            self.key_order().len() == self.value_order().len(),
            forall|i: int, j: int|
                0 <= i < j < self.key_order().len() ==> seq_lt(#[trigger] self.key_order()[i], #[trigger] self.key_order()[j]),
            forall|i: int|
                0 <= i < self.key_order().len() ==> #[trigger] self@.dom().contains(self.key_order()[i])
                    && self@[self.key_order()[i]] == self.value_order()[i],
            forall|k: Seq<char>| #[trigger] self@.dom().contains(k) ==> self.key_order().contains(k),
    {
        let s = self.entries@;
        assert forall|i: int| 0 <= i < self.key_order().len() implies #[trigger] self@.dom().contains(self.key_order()[i])
            && self@[self.key_order()[i]] == self.value_order()[i] by {
            lemma_index_of(s, i);
        }
        assert forall|k: Seq<char>| #[trigger] self@.dom().contains(k) implies self.key_order().contains(k) by {
            let i = choose|i: int| 0 <= i < s.len() && #[trigger] s[i].0@ == k;
            assert(self.key_order()[i] == k);
        }
    }

    /// No entries.
    pub fn new() -> (res: Self)
        ensures
            res.wf(),
            res@ == Map::<Seq<char>, T>::empty(),
    {
        let res = KeyedList { entries: Vec::new() };
        assert(res@ =~= Map::<Seq<char>, T>::empty());
        res
    }

    /// The number of entries.
    pub fn len(&self) -> (res: usize)
        requires
            self.wf(),
        ensures
            res == self@.dom().len(),
            res == self.key_order().len(),
    {
        proof {
            let s = self.entries@;
            let keys = self.key_order();
            self.lemma_order();
            assert(self@.dom() =~= keys.to_set());
            assert forall|i: int, j: int| 0 <= i < keys.len() && 0 <= j < keys.len() && i != j implies keys[i] != keys[j] by {
                if i < j {
                    lemma_lt_irreflexive(keys[i]);
                } else {
                    lemma_lt_irreflexive(keys[j]);
                }
            }
            assert(keys.no_duplicates());
            keys.unique_seq_to_set();
        }
        self.entries.len()
    }

    /// The value of a key.
    pub fn get(&self, key: &str) -> (res: Option<&T>)
        requires
            self.wf(),
        ensures
            match res {
                Some(v) => self@.dom().contains(key@) && self@[key@] == *v,
                None => !self@.dom().contains(key@),
            },
    {
        let mut i: usize = 0;
        while i < self.entries.len()
            invariant
                self.wf(),
                i <= self.entries@.len(),
                forall|j: int| 0 <= j < i ==> self.entries@[j].0@ != key@,
            decreases self.entries@.len() - i,
        {
            if str_eq(self.entries[i].0.as_str(), key) {
                proof {
                    lemma_index_of(self.entries@, i as int);
                }
                return Some(&self.entries[i].1);
            }
            i += 1;
        }
        None
    }

    /// The `i`-th entry in key order.
    pub fn entry(&self, i: usize) -> (res: (&String, &T))
        requires
            self.wf(),
            i < self.key_order().len(),
        ensures
            res.0@ == self.key_order()[i as int],
            *res.1 == self.value_order()[i as int],
    {
        (&self.entries[i].0, &self.entries[i].1)
    }

    /// The keys in ascending order.
    pub fn keys(&self) -> (res: Vec<String>)
        ensures
            res@.map_values(|k: String| k@) == self.key_order(),
    {
        let mut res: Vec<String> = Vec::new();
        let mut i: usize = 0;
        while i < self.entries.len()
            invariant
                i <= self.entries@.len(),
                res@.map_values(|k: String| k@) == self.key_order().take(i as int),
            decreases self.entries@.len() - i,
        {
            let ghost before = res@.map_values(|k: String| k@);
            res.push(self.entries[i].0.clone());
            assert(res@.map_values(|k: String| k@) =~= self.key_order().take(i as int + 1)) by {
                assert(res@.map_values(|k: String| k@) =~= before.push(self.entries@[i as int].0@));
            }
            i += 1;
        }
        assert(self.key_order().take(self.entries@.len() as int) =~= self.key_order());
        res
    }

    /// Sets the value of a key, keeping the keys in order.
    pub fn insert(&mut self, key: String, value: T)
        requires
            old(self).wf(),
        ensures
            final(self).wf(),
            final(self)@ == old(self)@.insert(key@, value),
    {
        let ghost s = self.entries@;
        let ghost k = key@;
        let mut pos: usize = 0;
        while pos < self.entries.len() && str_lt(self.entries[pos].0.as_str(), key.as_str())
            invariant
                self.entries@ == s,
                k == key@,
                keys_sorted(s),
                pos <= s.len(),
                forall|j: int| 0 <= j < pos ==> seq_lt(#[trigger] s[j].0@, k),
            decreases s.len() - pos,
        {
            pos += 1;
        }
        // Every entry from `pos` on has a key at least `key`.
        assert forall|j: int| pos <= j < s.len() implies !seq_lt(#[trigger] s[j].0@, k) by {
            if pos < s.len() {
                assert(!seq_lt(s[pos as int].0@, k));
                if j > pos {
                    assert(seq_lt(s[pos as int].0@, s[j].0@));
                    if seq_lt(s[j].0@, k) {
                        lemma_lt_transitive(s[pos as int].0@, s[j].0@, k);
                    }
                }
            }
        }
        if pos < self.entries.len() && str_eq(self.entries[pos].0.as_str(), key.as_str()) {
            self.entries.set(pos, (key, value));
            proof {
                let t = self.entries@;
                assert(t == s.update(pos as int, (key, value)));
                assert(keys_sorted(t)) by {
                    assert forall|i: int, j: int| 0 <= i < j < t.len() implies seq_lt(#[trigger] t[i].0@, #[trigger] t[j].0@) by {
                        assert(s[i].0@ == t[i].0@ || i == pos);
                        assert(s[j].0@ == t[j].0@ || j == pos);
                        assert(t[pos as int].0@ == s[pos as int].0@);
                        assert(seq_lt(s[i].0@, s[j].0@));
                    }
                }
                assert(map_of(t) =~= map_of(s).insert(k, value)) by {
                    assert forall|x: Seq<char>| #[trigger] map_of(t).dom().contains(x) == map_of(s).insert(k, value).dom().contains(x) by {
                        if has_key(t, x) {
                            let i = choose|i: int| 0 <= i < t.len() && #[trigger] t[i].0@ == x;
                            if i != pos {
                                assert(s[i].0@ == x);
                            }
                        }
                        if has_key(s, x) {
                            let i = choose|i: int| 0 <= i < s.len() && #[trigger] s[i].0@ == x;
                            assert(t[i].0@ == x);
                        }
                        if x == k {
                            assert(t[pos as int].0@ == x);
                        }
                    }
                    assert forall|x: Seq<char>| #[trigger] map_of(t).dom().contains(x) implies map_of(t)[x] == map_of(s).insert(k, value)[x] by {
                        let i = choose|i: int| 0 <= i < t.len() && #[trigger] t[i].0@ == x;
                        lemma_index_of(t, i);
                        if i != pos {
                            assert(s[i] == t[i]);
                            lemma_index_of(s, i);
                        }
                    }
                }
            }
        } else {
            self.entries.insert(pos, (key, value));
            proof {
                let t = self.entries@;
                assert(t == s.insert(pos as int, (key, value)));
                if pos < s.len() {
                    assert(s[pos as int].0@ != k);
                    lemma_lt_total(s[pos as int].0@, k);
                }
                assert forall|j: int| pos <= j < s.len() implies seq_lt(k, #[trigger] s[j].0@) by {
                    if j == pos {
                        lemma_lt_total(s[pos as int].0@, k);
                    } else {
                        assert(seq_lt(s[pos as int].0@, s[j].0@));
                        lemma_lt_total(s[pos as int].0@, k);
                        lemma_lt_transitive(k, s[pos as int].0@, s[j].0@);
                    }
                }
                assert(keys_sorted(t)) by {
                    assert forall|i: int, j: int| 0 <= i < j < t.len() implies seq_lt(#[trigger] t[i].0@, #[trigger] t[j].0@) by {
                        if j < pos {
                            assert(t[i] == s[i] && t[j] == s[j]);
                        } else if j == pos {
                            assert(t[i] == s[i]);
                        } else if i < pos {
                            assert(t[i] == s[i] && t[j] == s[j - 1]);
                            if j - 1 >= pos {
                                assert(seq_lt(k, s[j - 1].0@));
                                lemma_lt_transitive(s[i].0@, k, s[j - 1].0@);
                            }
                        } else if i == pos {
                            assert(t[j] == s[j - 1]);
                        } else {
                            assert(t[i] == s[i - 1] && t[j] == s[j - 1]);
                        }
                    }
                }
                assert(!has_key(s, k)) by {
                    if has_key(s, k) {
                        let i = choose|i: int| 0 <= i < s.len() && #[trigger] s[i].0@ == k;
                        if i < pos {
                            lemma_lt_irreflexive(k);
                        } else {
                            lemma_lt_irreflexive(k);
                        }
                    }
                }
                assert(map_of(t) =~= map_of(s).insert(k, value)) by {
                    assert forall|x: Seq<char>| #[trigger] map_of(t).dom().contains(x) == map_of(s).insert(k, value).dom().contains(x) by {
                        if has_key(t, x) {
                            let i = choose|i: int| 0 <= i < t.len() && #[trigger] t[i].0@ == x;
                            if i < pos {
                                assert(s[i].0@ == x);
                            } else if i > pos {
                                assert(s[i - 1].0@ == x);
                            }
                        }
                        if has_key(s, x) {
                            let i = choose|i: int| 0 <= i < s.len() && #[trigger] s[i].0@ == x;
                            if i < pos {
                                assert(t[i].0@ == x);
                            } else {
                                assert(t[i + 1].0@ == x);
                            }
                        }
                        if x == k {
                            assert(t[pos as int].0@ == x);
                        }
                    }
                    assert forall|x: Seq<char>| #[trigger] map_of(t).dom().contains(x) implies map_of(t)[x] == map_of(s).insert(k, value)[x] by {
                        let i = choose|i: int| 0 <= i < t.len() && #[trigger] t[i].0@ == x;
                        lemma_index_of(t, i);
                        if i < pos {
                            assert(s[i] == t[i]);
                            lemma_index_of(s, i);
                        } else if i > pos {
                            assert(s[i - 1] == t[i]);
                            lemma_index_of(s, i - 1);
                        }
                    }
                }
            }
        }
    }

    /// Removes a key and its value.
    pub fn remove(&mut self, key: &str)
        requires
            old(self).wf(),
        ensures
            final(self).wf(),
            final(self)@ == old(self)@.remove(key@),
    {
        let ghost s = self.entries@;
        let mut i: usize = 0;
        while i < self.entries.len()
            invariant
                self.entries@ == s,
                s == old(self).entries@,
                keys_sorted(s),
                i <= s.len(),
                forall|j: int| 0 <= j < i ==> s[j].0@ != key@,
            decreases s.len() - i,
        {
            if str_eq(self.entries[i].0.as_str(), key) {
                self.entries.remove(i);
                proof {
                    let t = self.entries@;
                    assert(t == s.remove(i as int));
                    assert(keys_sorted(t)) by {
                        assert forall|a: int, b: int| 0 <= a < b < t.len() implies seq_lt(#[trigger] t[a].0@, #[trigger] t[b].0@) by {
                            if b < i {
                                assert(t[a] == s[a] && t[b] == s[b]);
                            } else if a < i {
                                assert(t[a] == s[a] && t[b] == s[b + 1]);
                            } else {
                                assert(t[a] == s[a + 1] && t[b] == s[b + 1]);
                            }
                        }
                    }
                    assert(map_of(t) =~= map_of(s).remove(key@)) by {
                        assert forall|x: Seq<char>| #[trigger] map_of(t).dom().contains(x) == map_of(s).remove(key@).dom().contains(x) by {
                            if has_key(t, x) {
                                let c = choose|c: int| 0 <= c < t.len() && #[trigger] t[c].0@ == x;
                                if c < i {
                                    assert(s[c].0@ == x);
                                    if x == key@ {
                                        lemma_unique_index(s, c, i as int);
                                    }
                                } else {
                                    assert(s[c + 1].0@ == x);
                                    if x == key@ {
                                        lemma_unique_index(s, c + 1, i as int);
                                    }
                                }
                            }
                            if has_key(s, x) && x != key@ {
                                let c = choose|c: int| 0 <= c < s.len() && #[trigger] s[c].0@ == x;
                                if c < i {
                                    assert(t[c].0@ == x);
                                } else {
                                    assert(c != i);
                                    assert(t[c - 1].0@ == x);
                                }
                            }
                        }
                        assert forall|x: Seq<char>| #[trigger] map_of(t).dom().contains(x) implies map_of(t)[x] == map_of(s).remove(key@)[x] by {
                            let c = choose|c: int| 0 <= c < t.len() && #[trigger] t[c].0@ == x;
                            lemma_index_of(t, c);
                            if c < i {
                                assert(s[c] == t[c]);
                                lemma_index_of(s, c);
                            } else {
                                assert(s[c + 1] == t[c]);
                                lemma_index_of(s, c + 1);
                            }
                        }
                    }
                }
                return;
            }
            i += 1;
        }
        proof {
            assert(!has_key(s, key@));
            assert(map_of(s) =~= map_of(s).remove(key@));
        }
    }
}

} // verus!
