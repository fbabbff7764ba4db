use vstd::prelude::*;
use crate::identity::Key;

verus! {

/// One record of a table.
pub struct Entry<K, V> {
    pub key: K,
    pub value: V,
}

/// A finite map from keys to values, kept as a list of records in which no
/// key occurs twice. Its view is the map from each key's view to its value.
pub struct Table<K: Key, V> {
    entries: Vec<Entry<K, V>>,
}

impl<K: Key, V> Table<K, V> {
    /// No two records have the same key.
    pub closed spec fn wf(&self) -> bool {
        forall|i: int, j: int|
            0 <= i < j < self.entries@.len() ==> self.entries@[i].key@ != self.entries@[j].key@
    }

    /// Whether the record at `i` is the one for `key`.
    spec fn holds(&self, i: int, key: K::V) -> bool {
        0 <= i < self.entries@.len() && self.entries@[i].key@ == key
    }

    pub closed spec fn view(&self) -> Map<K::V, V> {
        Map::new(
            |k: K::V| exists|i: int| self.holds(i, k),
            |k: K::V| self.entries@[choose|i: int| self.holds(i, k)].value,
        )
    }

    /// The map that a list of records stands for. Where a key occurs more than
    /// once, its first record counts.
    pub open spec fn collected(records: Seq<Entry<K, V>>) -> Map<K::V, V>
        decreases records.len(),
    {
        if records.len() == 0 {
            Map::empty()
        } else {
            Self::collected(records.drop_first()).insert(records[0].key@, records[0].value)
        }
    }

    /// Every value of the map that `records` stands for is the value of one
    /// of the records.
    pub proof fn lemma_collected_values(records: Seq<Entry<K, V>>, key: K::V)
        requires
            Self::collected(records).contains_key(key),
        ensures
            exists|i: int|
                0 <= i < records.len() && (#[trigger] records[i]).value == Self::collected(
                    records,
                )[key],
        decreases records.len(),
    {
        if records.len() > 0 {
            if records[0].key@ == key {
                assert(records[0].value == Self::collected(records)[key]);
            } else {
                let rest = records.drop_first();
                Self::lemma_collected_values(rest, key);
                let i = choose|i: int|
                    0 <= i < rest.len() && (#[trigger] rest[i]).value == Self::collected(rest)[key];
                assert(records[i + 1] == rest[i]);
            }
        }
    }

    /// The table of the given records.
    pub fn from_records(records: Vec<Entry<K, V>>) -> (t: Self)
        ensures
            t.wf(),
            t@ == Self::collected(records@),
    {
        let ghost all = records@;
        let mut records = records;
        let mut t = Self::new();
        assert(all.subrange(all.len() as int, all.len() as int) =~= Seq::<Entry<K, V>>::empty());
        while records.len() > 0
            invariant
                t.wf(),
                records@.len() <= all.len(),
                records@ == all.subrange(0, records@.len() as int),
                t@ == Self::collected(all.subrange(records@.len() as int, all.len() as int)),
            decreases records@.len(),
        {
            let ghost n = records@.len() as int;
            let last = records.pop();
            match last {
                Some(entry) => {
                    proof {
                        assert(entry == all[n - 1]);
                        assert(all.subrange(n - 1, all.len() as int).drop_first() =~= all.subrange(
                            n,
                            all.len() as int,
                        ));
                        assert(records@ =~= all.subrange(0, n - 1));
                    }
                    t.set(entry.key, entry.value);
                },
                None => {},
            }
        }
        assert(all.subrange(0, all.len() as int) =~= all);
        t
    }

    /// The table without records.
    pub fn new() -> (t: Self)
        ensures
            t.wf(),
            t@ == Map::<K::V, V>::empty(),
    {
        let t = Table { entries: Vec::new() };
        assert(t@ =~= Map::<K::V, V>::empty());
        t
    }

    /// Where the record for `key` stands, if there is one.
    fn position(&self, key: &K) -> (r: Option<usize>)
        ensures
            match r {
                Some(i) => self.holds(i as int, key@),
                None => forall|i: int| !self.holds(i, key@),
            },
    {
        let mut i: usize = 0;
        while i < self.entries.len()
            invariant
                i <= self.entries@.len(),
                forall|j: int| 0 <= j < i ==> !self.holds(j, key@),
            decreases self.entries@.len() - i,
        {
            if self.entries[i].key.same(key) {
                return Some(i);
            }
            i += 1;
        }
        None
    }

    /// The value recorded for `key`, if there is one.
    pub fn get(&self, key: &K) -> (r: Option<&V>)
        requires
            self.wf(),
        ensures
            r == if self@.contains_key(key@) {
                Some(&self@[key@])
            } else {
                None
            },
    {
        match self.position(key) {
            Some(i) => {
                proof {
                    let c = choose|c: int| self.holds(c, key@);
                    assert(self.holds(i as int, key@));
                    assert(c == i);
                }
                Some(&self.entries[i].value)
            },
            None => None,
        }
    }

    /// Records `value` for `key`, in place of what was recorded for it before.
    pub fn set(&mut self, key: K, value: V)
        requires
            old(self).wf(),
        ensures
            final(self).wf(),
            final(self)@ == old(self)@.insert(key@, value),
    {
        let ghost k = key@;
        let ghost before = *self;
        match self.position(&key) {
            Some(i) => {
                self.entries.set(i, Entry { key, value });
                proof {
                    assert(before.holds(i as int, k));
                    assert forall|a: int, b: int| 0 <= a < b < self.entries@.len() implies
                        self.entries@[a].key@ != self.entries@[b].key@ by {
                        assert(self.entries@[a].key@ == before.entries@[a].key@);
                        assert(self.entries@[b].key@ == before.entries@[b].key@);
                    }
                    assert forall|q: K::V| #[trigger] self@.contains_key(q) == before@.insert(k, value).contains_key(q) by {
                        if before@.insert(k, value).contains_key(q) {
                            if q == k {
                                assert(self.holds(i as int, q));
                            } else {
                                let c = choose|c: int| before.holds(c, q);
                                assert(self.holds(c, q));
                            }
                        }
                        if self@.contains_key(q) {
                            let c = choose|c: int| self.holds(c, q);
                            if c != i {
                                assert(before.holds(c, q));
                            }
                        }
                    }
                    assert forall|q: K::V| self@.contains_key(q) implies #[trigger] self@[q] == before@.insert(k, value)[q] by {
                        let c = choose|c: int| self.holds(c, q);
                        if q == k {
                            assert(self.holds(i as int, q));
                            assert(c == i);
                        } else {
                            assert(before.holds(c, q));
                            let d = choose|d: int| before.holds(d, q);
                            assert(c == d);
                        }
                    }
                    assert(self@ =~= before@.insert(k, value));
                }
            },
            None => {
                self.entries.push(Entry { key, value });
                proof {
                    let n = before.entries@.len() as int;
                    assert forall|a: int, b: int| 0 <= a < b < self.entries@.len() implies
                        self.entries@[a].key@ != self.entries@[b].key@ by {
                        if b == n {
                            assert(!before.holds(a, k));
                        } else {
                            assert(self.entries@[a].key@ == before.entries@[a].key@);
                            assert(self.entries@[b].key@ == before.entries@[b].key@);
                        }
                    }
                    assert forall|q: K::V| #[trigger] self@.contains_key(q) == before@.insert(k, value).contains_key(q) by {
                        if before@.insert(k, value).contains_key(q) {
                            if q == k {
                                assert(self.holds(n, q));
                            } else {
                                let c = choose|c: int| before.holds(c, q);
                                assert(self.holds(c, q));
                            }
                        }
                        if self@.contains_key(q) {
                            let c = choose|c: int| self.holds(c, q);
                            if c != n {
                                assert(before.holds(c, q));
                            }
                        }
                    }
                    assert forall|q: K::V| self@.contains_key(q) implies #[trigger] self@[q] == before@.insert(k, value)[q] by {
                        let c = choose|c: int| self.holds(c, q);
                        if q == k {
                            assert(self.holds(n, q));
                            if c != n {
                                assert(before.holds(c, q));
                            }
                        } else {
                            assert(before.holds(c, q));
                            let d = choose|d: int| before.holds(d, q);
                            assert(c == d);
                        }
                    }
                    assert(self@ =~= before@.insert(k, value));
                }
            },
        }
    }
}

} // verus!
