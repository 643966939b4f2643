//! Maps and sets keyed by digests, kept in increasing order of key.

use vstd::prelude::*;
use crate::bytes::{after32, be_bytes_of_be_value, be_value, same32};

verus! {

/// One entry of a map.
#[derive(Debug)]
pub struct DigestEntry<V> {
    pub key: [u8; 32],
    pub value: V,
}

/// A map from digests, in increasing order of key.
#[derive(Debug)]
pub struct DigestMap<V> {
    pub entries: Vec<DigestEntry<V>>,
}

/// A set of digests.
pub type DigestSet = DigestMap<()>;

/// Whether the keys of a list increase.
pub open spec fn keys_increase<V>(entries: Seq<DigestEntry<V>>) -> bool {
    forall|i: int, j: int|
        0 <= i < j < entries.len() ==> be_value((#[trigger] entries[i]).key@) < be_value((#[trigger] entries[j]).key@)
}

/// Digests that write the same number are the same.
proof fn same_number(a: [u8; 32], b: [u8; 32])
    ensures
        be_value(a@) == be_value(b@) ==> a@ == b@ && a == b,
{
    be_bytes_of_be_value(a@);
    be_bytes_of_be_value(b@);
    if be_value(a@) == be_value(b@) {
        assert(a =~= b);
    }
}

impl<V> DigestMap<V> {
    /// The keys increase.
    pub open spec fn sorted(self) -> bool {
        keys_increase(self.entries@)
    }

    /// Whether a key is in the map.
    pub open spec fn has(self, key: Seq<u8>) -> bool {
        exists|i: int| 0 <= i < self.entries@.len() && (#[trigger] self.entries@[i]).key@ == key
    }

    /// Where a key is.
    pub open spec fn place(self, key: Seq<u8>) -> int {
        choose|i: int| 0 <= i < self.entries@.len() && (#[trigger] self.entries@[i]).key@ == key
    }

    /// The value of a key.
    pub open spec fn at(self, key: Seq<u8>) -> V {
        self.entries@[self.place(key)].value
    }

    /// How many keys are in the map.
    pub open spec fn count(self) -> nat {
        self.entries@.len()
    }

    /// Whether two maps have the same keys and values but for one key.
    pub open spec fn same_but(self, other: DigestMap<V>, key: Seq<u8>) -> bool {
        forall|k: Seq<u8>|
            k != key ==> #[trigger] self.has(k) == other.has(k) && (self.has(k) ==> self.at(k) == other.at(k))
    }

    /// A key stands in one place only.
    pub proof fn only_place(self, key: Seq<u8>, i: int)
        requires
            self.sorted(),
            0 <= i < self.entries@.len(),
            self.entries@[i].key@ == key,
        ensures
            self.has(key),
            self.place(key) == i,
    {
        let p = self.place(key);
        assert(self.entries@[p].key@ == key);
        if p < i {
            assert(be_value(self.entries@[p].key@) < be_value(self.entries@[i].key@));
        } else if i < p {
            assert(be_value(self.entries@[i].key@) < be_value(self.entries@[p].key@));
        }
    }

    /// An empty map.
    pub fn new() -> (map: DigestMap<V>)
        ensures
            map.sorted(),
            map.count() == 0,
            forall|k: Seq<u8>| !map.has(k),
    {
        DigestMap { entries: Vec::new() }
    }

    /// The place of a key, or of the first larger one.
    fn search(&self, key: &[u8; 32]) -> (r: (usize, bool))
        requires
            self.sorted(),
        ensures
            r.0 <= self.entries@.len(),
            r.1 == self.has(key@),
            r.1 ==> r.0 < self.entries@.len() && self.entries@[r.0 as int].key@ == key@ && self.place(key@) == r.0,
            !r.1 ==> (forall|i: int| 0 <= i < r.0 ==> be_value((#[trigger] self.entries@[i]).key@) < be_value(key@))
                && (
            forall|i: int| r.0 <= i < self.entries@.len()
                ==> be_value((#[trigger] self.entries@[i]).key@) > be_value(key@)),
    {
        let mut i: usize = 0;
        while i < self.entries.len()
            invariant
                i <= self.entries@.len(),
                self.sorted(),
                forall|j: int| 0 <= j < i ==> be_value((#[trigger] self.entries@[j]).key@) < be_value(key@),
            decreases self.entries@.len() - i,
        {
            if same32(&self.entries[i].key, key) {
                proof {
                    self.only_place(key@, i as int);
                }
                return (i, true);
            }
            if after32(&self.entries[i].key, key) {
                assert forall|j: int| i <= j < self.entries@.len() implies be_value((#[trigger] self.entries@[j]).key@)
                    > be_value(key@) by {
                    if j > i {
                        assert(be_value(self.entries@[i as int].key@) < be_value(self.entries@[j].key@));
                    }
                }
                return (i, false);
            }
            proof {
                same_number(self.entries@[i as int].key, *key);
            }
            i = i + 1;
        }
        (i, false)
    }

    /// Whether a key is in the map.
    pub fn contains(&self, key: &[u8; 32]) -> (r: bool)
        requires
            self.sorted(),
        ensures
            r == self.has(key@),
    {
        self.search(key).1
    }

    /// The value of a key.
    pub fn get(&self, key: &[u8; 32]) -> (r: Option<&V>)
        requires
            self.sorted(),
        ensures
            match r {
                Some(v) => self.has(key@) && *v == self.at(key@),
                None => !self.has(key@),
            },
    {
        let (i, found) = self.search(key);
        if found {
            Some(&self.entries[i].value)
        } else {
            None
        }
    }

    /// The value of a key, to change.
    pub fn get_mut(&mut self, key: &[u8; 32]) -> (r: Option<&mut V>)
        requires
            old(self).sorted(),
        ensures
            match r {
                Some(v) => {
                    &&& old(self).has(key@)
                    &&& *v == old(self).at(key@)
                    &&& final(self).sorted()
                    &&& final(self).has(key@)
                    &&& final(self).at(key@) == *final(v)
                    &&& final(self).same_but(*old(self), key@)
                    &&& final(self).count() == old(self).count()
                },
                None => !old(self).has(key@) && *final(self) == *old(self),
            },
    {
        let (i, found) = self.search(key);
        if found {
            let ghost before = *self;
            proof {
                assert forall|after: DigestMap<V>, entry: DigestEntry<V>|
                    #![trigger after.entries@, before.entries@.update(i as int, entry)]
                    after.entries@ == before.entries@.update(i as int, entry) && entry.key@ == key@ implies {
                    &&& after.sorted()
                    &&& after.has(key@)
                    &&& after.at(key@) == entry.value
                    &&& after.same_but(before, key@)
                    &&& after.count() == before.count()
                } by {
                    value_changed(before, after, key@, i as int, entry);
                }
            }
            Some(&mut self.entries[i].value)
        } else {
            None
        }
    }

    /// How many keys are in the map.
    pub fn len(&self) -> (count: usize)
        ensures
            count == self.count(),
    {
        self.entries.len()
    }

    /// Gives a key a value.
    pub fn insert(&mut self, key: [u8; 32], value: V)
        requires
            old(self).sorted(),
        ensures
            final(self).sorted(),
            final(self).has(key@),
            final(self).at(key@) == value,
            final(self).same_but(*old(self), key@),
            final(self).count() == old(self).count() + if old(self).has(key@) {
                0int
            } else {
                1int
            },
    {
        let (i, found) = self.search(&key);
        let ghost before = *self;
        if found {
            self.entries.set(i, DigestEntry { key, value });
            proof {
                assert forall|a: int, b: int| 0 <= a < b < self.entries@.len() implies be_value(
                    (#[trigger] self.entries@[a]).key@,
                ) < be_value((#[trigger] self.entries@[b]).key@) by {
                    assert(before.entries@[a].key@ == self.entries@[a].key@);
                    assert(before.entries@[b].key@ == self.entries@[b].key@);
                }
                self.only_place(key@, i as int);
                assert forall|k: Seq<u8>| k != key@ implies #[trigger] self.has(k) == before.has(k) && (self.has(k)
                    ==> self.at(k) == before.at(k)) by {
                    if self.has(k) {
                        let p = self.place(k);
                        assert(before.entries@[p].key@ == k);
                        before.only_place(k, p);
                    }
                    if before.has(k) {
                        let p = before.place(k);
                        assert(self.entries@[p].key@ == k);
                        self.only_place(k, p);
                    }
                }
            }
        } else {
            self.entries.insert(i, DigestEntry { key, value });
            proof {
                assert forall|a: int, b: int| 0 <= a < b < self.entries@.len() implies be_value(
                    (#[trigger] self.entries@[a]).key@,
                ) < be_value((#[trigger] self.entries@[b]).key@) by {
                    let pa = if a < i { a } else { a - 1 };
                    let pb = if b < i { b } else { b - 1 };
                    if a != i && b != i {
                        assert(self.entries@[a] == before.entries@[pa]);
                        assert(self.entries@[b] == before.entries@[pb]);
                    } else if a == i {
                        assert(self.entries@[b] == before.entries@[b - 1]);
                    } else {
                        assert(self.entries@[a] == before.entries@[a]);
                    }
                }
                assert(self.entries@[i as int].key == key);
                self.only_place(key@, i as int);
                assert forall|k: Seq<u8>| k != key@ implies #[trigger] self.has(k) == before.has(k) && (self.has(k)
                    ==> self.at(k) == before.at(k)) by {
                    if self.has(k) {
                        let p = self.place(k);
                        let q = if p < i { p } else { p - 1 };
                        assert(before.entries@[q] == self.entries@[p]);
                        before.only_place(k, q);
                    }
                    if before.has(k) {
                        let q = before.place(k);
                        let p = if q < i { q } else { q + 1 };
                        assert(self.entries@[p] == before.entries@[q]);
                        self.only_place(k, p);
                    }
                }
            }
        }
    }

    /// Takes a key out of the map.
    pub fn remove(&mut self, key: &[u8; 32]) -> (r: Option<V>)
        requires
            old(self).sorted(),
        ensures
            final(self).sorted(),
            !final(self).has(key@),
            final(self).same_but(*old(self), key@),
            match r {
                Some(v) => old(self).has(key@) && v == old(self).at(key@)
                    && final(self).count() == old(self).count() - 1,
                None => !old(self).has(key@) && *final(self) == *old(self),
            },
    {
        let (i, found) = self.search(key);
        if !found {
            return None;
        }
        let ghost before = *self;
        let entry = self.entries.remove(i);
        proof {
            assert forall|a: int, b: int| 0 <= a < b < self.entries@.len() implies be_value(
                (#[trigger] self.entries@[a]).key@,
            ) < be_value((#[trigger] self.entries@[b]).key@) by {
                let pa = if a < i { a } else { a + 1 };
                let pb = if b < i { b } else { b + 1 };
                assert(self.entries@[a] == before.entries@[pa]);
                assert(self.entries@[b] == before.entries@[pb]);
            }
            assert forall|k: Seq<u8>| k != key@ implies #[trigger] self.has(k) == before.has(k) && (self.has(k)
                ==> self.at(k) == before.at(k)) by {
                if self.has(k) {
                    let p = self.place(k);
                    let q = if p < i { p } else { p + 1 };
                    assert(before.entries@[q] == self.entries@[p]);
                    before.only_place(k, q);
                }
                if before.has(k) {
                    let q = before.place(k);
                    let p = if q < i { q } else { q - 1 };
                    assert(q != i);
                    assert(self.entries@[p] == before.entries@[q]);
                    self.only_place(k, p);
                }
            }
            if self.has(key@) {
                let p = self.place(key@);
                let q = if p < i { p } else { p + 1 };
                assert(before.entries@[q] == self.entries@[p]);
                before.only_place(key@, q);
            }
        }
        Some(entry.value)
    }
}

/// Changing the value of a key leaves the others.
proof fn value_changed<V>(before: DigestMap<V>, after: DigestMap<V>, key: Seq<u8>, i: int, entry: DigestEntry<V>)
    requires
        before.sorted(),
        0 <= i < before.entries@.len(),
        before.entries@[i].key@ == key,
        after.entries@ == before.entries@.update(i, entry),
    ensures
        entry.key@ == key ==> {
            &&& after.sorted()
            &&& after.has(key)
            &&& after.at(key) == entry.value
            &&& after.same_but(before, key)
            &&& after.count() == before.count()
        },
{
    if entry.key@ == key {
        assert forall|a: int, b: int| 0 <= a < b < after.entries@.len() implies be_value(
            (#[trigger] after.entries@[a]).key@,
        ) < be_value((#[trigger] after.entries@[b]).key@) by {
            assert(before.entries@[a].key@ == after.entries@[a].key@);
            assert(before.entries@[b].key@ == after.entries@[b].key@);
        }
        after.only_place(key, i);
        assert forall|k: Seq<u8>| k != key implies #[trigger] after.has(k) == before.has(k) && (after.has(k)
            ==> after.at(k) == before.at(k)) by {
            if after.has(k) {
                let p = after.place(k);
                assert(before.entries@[p].key@ == k);
                before.only_place(k, p);
            }
            if before.has(k) {
                let p = before.place(k);
                assert(after.entries@[p].key@ == k);
                after.only_place(k, p);
            }
        }
    }
}

} // verus!
