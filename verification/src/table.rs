//! A small map keyed by account address.

use vstd::prelude::*;
use crate::primitives::Addr;

verus! {

/// A map from addresses to values, held as a list of pairs in which no
/// address occurs twice.
pub struct AddrTable<V> {
    entries: Vec<(Addr, V)>,
}

/// No address occurs twice among the pairs.
spec fn keys_unique<V>(s: Seq<(Addr, V)>) -> bool {
    forall|i: int, j: int|
        0 <= i < s.len() && 0 <= j < s.len() && i != j
            ==> #[trigger] s[i].0.bytes@ != #[trigger] s[j].0.bytes@
}

spec fn key_at<V>(s: Seq<(Addr, V)>, i: int) -> Seq<u8> {
    s[i].0.bytes@
}

spec fn has_key<V>(s: Seq<(Addr, V)>, k: Seq<u8>) -> bool {
    exists|i: int| 0 <= i < s.len() && #[trigger] key_at(s, i) == k
}

spec fn index_of<V>(s: Seq<(Addr, V)>, k: Seq<u8>) -> int {
    choose|i: int| 0 <= i < s.len() && #[trigger] key_at(s, i) == k
}

/// The map a list of pairs stands for.
spec fn map_of<V>(s: Seq<(Addr, V)>) -> Map<Seq<u8>, V> {
    Map::new(|k: Seq<u8>| has_key(s, k), |k: Seq<u8>| s[index_of(s, k)].1)
}

proof fn lemma_entry<V>(s: Seq<(Addr, V)>, i: int)
    requires
        keys_unique(s),
        0 <= i < s.len(),
    ensures
        map_of(s).contains_key(key_at(s, i)),
        map_of(s)[key_at(s, i)] == s[i].1,
{
    assert(has_key(s, key_at(s, i)));
    let j = index_of(s, key_at(s, i));
    assert(key_at(s, j) == key_at(s, i));
}

proof fn lemma_absent<V>(s: Seq<(Addr, V)>, k: Seq<u8>)
    requires
        forall|i: int| 0 <= i < s.len() ==> #[trigger] key_at(s, i) != k,
    ensures
        !map_of(s).contains_key(k),
{
}

/// Overwriting the value at the position of a key updates the map at that key.
proof fn lemma_update<V>(s: Seq<(Addr, V)>, i: int, key: Addr, value: V)
    requires
        keys_unique(s),
        0 <= i < s.len(),
        key_at(s, i) == key.bytes@,
    ensures
        keys_unique(s.update(i, (key, value))),
        map_of(s.update(i, (key, value))) == map_of(s).insert(key.bytes@, value),
{
    let t = s.update(i, (key, value));
    assert forall|a: int, b: int| 0 <= a < t.len() && 0 <= b < t.len() && a != b
        implies #[trigger] t[a].0.bytes@ != #[trigger] t[b].0.bytes@ by {
        assert(key_at(s, a) != key_at(s, b));
    }
    assert forall|k: Seq<u8>| #[trigger] map_of(t).contains_key(k)
        == map_of(s).insert(key.bytes@, value).contains_key(k) by {
        if has_key(t, k) {
            let j = choose|j: int| 0 <= j < t.len() && #[trigger] key_at(t, j) == k;
            assert(key_at(s, j) == k);
        }
        if has_key(s, k) {
            let j = choose|j: int| 0 <= j < s.len() && #[trigger] key_at(s, j) == k;
            assert(key_at(t, j) == k);
        }
    }
    assert forall|k: Seq<u8>| #[trigger] map_of(t).contains_key(k)
        implies map_of(t)[k] == map_of(s).insert(key.bytes@, value)[k] by {
        let j = choose|j: int| 0 <= j < t.len() && #[trigger] key_at(t, j) == k;
        lemma_entry(t, j);
        if j != i {
            assert(key_at(s, j) == k);
            lemma_entry(s, j);
        }
    }
    assert(map_of(t) =~= map_of(s).insert(key.bytes@, value));
}

/// Appending a pair with a new key adds that key to the map.
proof fn lemma_push<V>(s: Seq<(Addr, V)>, key: Addr, value: V)
    requires
        keys_unique(s),
        forall|i: int| 0 <= i < s.len() ==> #[trigger] key_at(s, i) != key.bytes@,
    ensures
        keys_unique(s.push((key, value))),
        map_of(s.push((key, value))) == map_of(s).insert(key.bytes@, value),
{
    let t = s.push((key, value));
    let n = s.len() as int;
    assert forall|a: int, b: int| 0 <= a < t.len() && 0 <= b < t.len() && a != b
        implies #[trigger] t[a].0.bytes@ != #[trigger] t[b].0.bytes@ by {
        if a != n && b != n {
            assert(key_at(s, a) != key_at(s, b));
        } else if a == n {
            assert(key_at(s, b) != key.bytes@);
        } else {
            assert(key_at(s, a) != key.bytes@);
        }
    }
    assert(key_at(t, n) == key.bytes@);
    assert forall|k: Seq<u8>| #[trigger] map_of(t).contains_key(k)
        == map_of(s).insert(key.bytes@, value).contains_key(k) by {
        if has_key(t, k) {
            let j = choose|j: int| 0 <= j < t.len() && #[trigger] key_at(t, j) == k;
            if j != n {
                assert(key_at(s, j) == k);
            }
        }
        if has_key(s, k) {
            let j = choose|j: int| 0 <= j < s.len() && #[trigger] key_at(s, j) == k;
            assert(key_at(t, j) == k);
        }
    }
    assert forall|k: Seq<u8>| #[trigger] map_of(t).contains_key(k)
        implies map_of(t)[k] == map_of(s).insert(key.bytes@, value)[k] by {
        let j = choose|j: int| 0 <= j < t.len() && #[trigger] key_at(t, j) == k;
        lemma_entry(t, j);
        if j != n {
            assert(key_at(s, j) == k);
            lemma_entry(s, j);
        }
    }
    assert(map_of(t) =~= map_of(s).insert(key.bytes@, value));
}

/// Removing the pair at the position of a key removes that key from the map.
proof fn lemma_remove<V>(s: Seq<(Addr, V)>, i: int)
    requires
        keys_unique(s),
        0 <= i < s.len(),
    ensures
        keys_unique(s.remove(i)),
        map_of(s.remove(i)) == map_of(s).remove(key_at(s, i)),
{
    let t = s.remove(i);
    let key = key_at(s, i);
    assert forall|a: int, b: int| 0 <= a < t.len() && 0 <= b < t.len() && a != b
        implies #[trigger] t[a].0.bytes@ != #[trigger] t[b].0.bytes@ by {
        let a0 = if a < i { a } else { a + 1 };
        let b0 = if b < i { b } else { b + 1 };
        assert(key_at(t, a) == key_at(s, a0));
        assert(key_at(t, b) == key_at(s, b0));
        assert(key_at(s, a0) != key_at(s, b0));
    }
    assert forall|k: Seq<u8>| #[trigger] map_of(t).contains_key(k)
        == map_of(s).remove(key).contains_key(k) by {
        if has_key(t, k) {
            let j = choose|j: int| 0 <= j < t.len() && #[trigger] key_at(t, j) == k;
            let j0 = if j < i { j } else { j + 1 };
            assert(key_at(s, j0) == k);
            assert(key_at(s, j0) != key_at(s, i));
        }
        if has_key(s, k) && k != key {
            let j0 = choose|j: int| 0 <= j < s.len() && #[trigger] key_at(s, j) == k;
            let j = if j0 < i { j0 } else { j0 - 1 };
            assert(key_at(t, j) == k);
        }
    }
    assert forall|k: Seq<u8>| #[trigger] map_of(t).contains_key(k)
        implies map_of(t)[k] == map_of(s).remove(key)[k] by {
        let j = choose|j: int| 0 <= j < t.len() && #[trigger] key_at(t, j) == k;
        lemma_entry(t, j);
        let j0 = if j < i { j } else { j + 1 };
        assert(key_at(s, j0) == k);
        lemma_entry(s, j0);
    }
    assert(map_of(t) =~= map_of(s).remove(key));
}

impl<V> AddrTable<V> {
    #[verifier::type_invariant]
    spec fn inv(self) -> bool {
        keys_unique(self.entries@)
    }

    /// The map the pairs stand for.
    pub closed spec fn map(self) -> Map<Seq<u8>, V> {
        map_of(self.entries@)
    }

    /// An empty table.
    pub fn new() -> (res: AddrTable<V>)
        ensures
            res.map() == Map::<Seq<u8>, V>::empty(),
    {
        let res = AddrTable { entries: Vec::new() };
        assert(map_of(res.entries@) =~= Map::<Seq<u8>, V>::empty());
        res
    }

    /// The position of `key` in the list, if it is there.
    fn find(entries: &Vec<(Addr, V)>, key: &Addr) -> (res: Option<usize>)
        ensures
            match res {
                Some(i) => i < entries@.len() && key_at(entries@, i as int) == key.bytes@,
                None => forall|i: int| 0 <= i < entries@.len() ==> #[trigger] key_at(entries@, i) != key.bytes@,
            },
    {
        let mut i: usize = 0;
        while i < entries.len()
            invariant
                0 <= i <= entries@.len(),
                forall|j: int| 0 <= j < i ==> #[trigger] key_at(entries@, j) != key.bytes@,
            decreases entries@.len() - i,
        {
            if entries[i].0.same_as(key) {
                return Some(i);
            }
            i = i + 1;
        }
        None
    }

    /// The value held for `key`.
    pub fn get(&self, key: &Addr) -> (res: Option<V>)
        where V: Copy,
        ensures
            res == (if self.map().contains_key(key.bytes@) {
                Some(self.map()[key.bytes@])
            } else {
                None::<V>
            }),
    {
        proof {
            use_type_invariant(self);
        }
        match Self::find(&self.entries, key) {
            Some(i) => {
                proof {
                    lemma_entry(self.entries@, i as int);
                }
                Some(self.entries[i].1)
            },
            None => {
                proof {
                    lemma_absent(self.entries@, key.bytes@);
                }
                None
            },
        }
    }

    /// Sets the value held for `key`, adding the key if it is absent.
    pub fn insert(&mut self, key: Addr, value: V)
        ensures
            final(self).map() == old(self).map().insert(key.bytes@, value),
    {
        proof {
            use_type_invariant(&*self);
        }
        let mut entries: Vec<(Addr, V)> = Vec::new();
        std::mem::swap(&mut entries, &mut self.entries);
        match Self::find(&entries, &key) {
            Some(i) => {
                proof {
                    lemma_update(entries@, i as int, key, value);
                }
                entries.set(i, (key, value));
            },
            None => {
                proof {
                    lemma_push(entries@, key, value);
                }
                entries.push((key, value));
            },
        }
        self.entries = entries;
    }

    /// Takes the value held for `key` out of the table.
    pub fn remove(&mut self, key: &Addr) -> (res: Option<V>)
        ensures
            res == (if old(self).map().contains_key(key.bytes@) {
                Some(old(self).map()[key.bytes@])
            } else {
                None::<V>
            }),
            final(self).map() == old(self).map().remove(key.bytes@),
    {
        proof {
            use_type_invariant(&*self);
        }
        let mut entries: Vec<(Addr, V)> = Vec::new();
        std::mem::swap(&mut entries, &mut self.entries);
        let res = match Self::find(&entries, key) {
            Some(i) => {
                proof {
                    lemma_entry(entries@, i as int);
                    lemma_remove(entries@, i as int);
                }
                let (_, v) = entries.remove(i);
                Some(v)
            },
            None => {
                proof {
                    lemma_absent(entries@, key.bytes@);
                    assert(map_of(entries@) =~= map_of(entries@).remove(key.bytes@));
                }
                None
            },
        };
        self.entries = entries;
        res
    }
}

} // verus!
