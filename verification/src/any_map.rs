//! A map from string keys to values of one type, kept in the order of
//! insertion.
//!
//! The host stores type-erased values in it; the library keeps the keys
//! apart and knows nothing of what a value holds.

use vstd::prelude::*;
use vstd::string::*;

verus! {

/// The models of a sequence of keys, in order.
pub open spec fn key_views(keys: Seq<String>) -> Seq<Seq<char>> {
    keys.map_values(|k: String| k@)
}

/// The map that pairs each key with the value at the same position.
pub open spec fn assoc_map<V>(ks: Seq<Seq<char>>, vals: Seq<V>) -> Map<Seq<char>, V> {
    Map::new(|k: Seq<char>| ks.contains(k), |k: Seq<char>| vals[ks.index_of(k)])
}

/// Keys that are all different, with one value each.
pub open spec fn assoc_wf<V>(ks: Seq<Seq<char>>, vals: Seq<V>) -> bool {
    ks.len() == vals.len() && ks.no_duplicates()
}

/// The key at a position is mapped to the value at that position.
pub proof fn lemma_assoc_at<V>(ks: Seq<Seq<char>>, vals: Seq<V>, i: int)
    requires
        assoc_wf(ks, vals),
        0 <= i < ks.len(),
    ensures
        assoc_map(ks, vals).contains_key(ks[i]),
        assoc_map(ks, vals)[ks[i]] == vals[i],
        ks.index_of(ks[i]) == i,
{
    assert(ks.contains(ks[i]));
}

/// A key that is not there yet can be added at the end.
pub proof fn lemma_assoc_push<V>(ks: Seq<Seq<char>>, vals: Seq<V>, k: Seq<char>, v: V)
    requires
        assoc_wf(ks, vals),
        !ks.contains(k),
    ensures
        assoc_wf(ks.push(k), vals.push(v)),
        assoc_map(ks.push(k), vals.push(v)) == assoc_map(ks, vals).insert(k, v),
{
    let ks2 = ks.push(k);
    let vals2 = vals.push(v);
    assert(ks2.no_duplicates()) by {
        assert forall|i: int, j: int|
            0 <= i < ks2.len() && 0 <= j < ks2.len() && i != j implies ks2[i] != ks2[j] by {
            if i < ks.len() && j < ks.len() {
                assert(ks[i] != ks[j]);
            } else if i < ks.len() {
                assert(ks[i] == ks2[i]);
            } else {
                assert(ks[j] == ks2[j]);
            }
        }
    }
    assert forall|x: Seq<char>| ks2.contains(x) <==> (x == k || ks.contains(x)) by {
        if ks2.contains(x) {
            let i = choose|i: int| 0 <= i < ks2.len() && ks2[i] == x;
            if i < ks.len() {
                assert(ks[i] == x);
            }
        }
        if ks.contains(x) {
            let i = choose|i: int| 0 <= i < ks.len() && ks[i] == x;
            assert(ks2[i] == x);
        }
        if x == k {
            assert(ks2[ks.len() as int] == x);
        }
    }
    assert forall|x: Seq<char>| ks2.contains(x) implies #[trigger] assoc_map(ks2, vals2)[x]
        == assoc_map(ks, vals).insert(k, v)[x] by {
        let i = ks2.index_of(x);
        lemma_assoc_at(ks2, vals2, i);
        if x != k {
            assert(i < ks.len());
            assert(ks[i] == x);
            lemma_assoc_at(ks, vals, i);
        }
    }
    assert(assoc_map(ks2, vals2) =~= assoc_map(ks, vals).insert(k, v));
}

/// Replacing the value at a position replaces what its key is mapped to.
pub proof fn lemma_assoc_update<V>(ks: Seq<Seq<char>>, vals: Seq<V>, i: int, v: V)
    requires
        assoc_wf(ks, vals),
        0 <= i < ks.len(),
    ensures
        assoc_wf(ks, vals.update(i, v)),
        assoc_map(ks, vals.update(i, v)) == assoc_map(ks, vals).insert(ks[i], v),
{
    let vals2 = vals.update(i, v);
    assert(ks.contains(ks[i]));
    assert forall|x: Seq<char>| ks.contains(x) implies #[trigger] assoc_map(ks, vals2)[x]
        == assoc_map(ks, vals).insert(ks[i], v)[x] by {
        let j = ks.index_of(x);
        lemma_assoc_at(ks, vals, j);
    }
    assert(assoc_map(ks, vals2) =~= assoc_map(ks, vals).insert(ks[i], v));
}

/// Taking a position out takes its key out of the map.
pub proof fn lemma_assoc_remove<V>(ks: Seq<Seq<char>>, vals: Seq<V>, i: int)
    requires
        assoc_wf(ks, vals),
        0 <= i < ks.len(),
    ensures
        assoc_wf(ks.remove(i), vals.remove(i)),
        assoc_map(ks.remove(i), vals.remove(i)) == assoc_map(ks, vals).remove(ks[i]),
{
    let ks2 = ks.remove(i);
    let vals2 = vals.remove(i);
    assert forall|a: int| 0 <= a < ks2.len() implies ks2[a] == ks[if a < i {
        a
    } else {
        a + 1
    }] by {}
    assert(ks2.no_duplicates()) by {
        assert forall|a: int, b: int|
            0 <= a < ks2.len() && 0 <= b < ks2.len() && a != b implies ks2[a] != ks2[b] by {
            let a1 = if a < i {
                a
            } else {
                a + 1
            };
            let b1 = if b < i {
                b
            } else {
                b + 1
            };
            assert(ks[a1] != ks[b1]);
        }
    }
    assert forall|x: Seq<char>| ks2.contains(x) <==> (x != ks[i] && ks.contains(x)) by {
        if ks2.contains(x) {
            let a = choose|a: int| 0 <= a < ks2.len() && ks2[a] == x;
            let a1 = if a < i {
                a
            } else {
                a + 1
            };
            assert(ks[a1] == x);
            assert(ks[a1] != ks[i]);
        }
        if x != ks[i] && ks.contains(x) {
            let b = choose|b: int| 0 <= b < ks.len() && ks[b] == x;
            let a = if b < i {
                b
            } else {
                b - 1
            };
            assert(ks2[a] == x);
        }
    }
    assert forall|x: Seq<char>| ks2.contains(x) implies #[trigger] assoc_map(ks2, vals2)[x]
        == assoc_map(ks, vals).remove(ks[i])[x] by {
        let a = ks2.index_of(x);
        lemma_assoc_at(ks2, vals2, a);
        let a1 = if a < i {
            a
        } else {
            a + 1
        };
        assert(ks[a1] == x);
        lemma_assoc_at(ks, vals, a1);
    }
    assert(assoc_map(ks2, vals2) =~= assoc_map(ks, vals).remove(ks[i]));
}

/// The map has one pair for each position.
pub proof fn lemma_assoc_len<V>(ks: Seq<Seq<char>>, vals: Seq<V>)
    requires
        assoc_wf(ks, vals),
    ensures
        assoc_map(ks, vals).dom() == ks.to_set(),
        assoc_map(ks, vals).dom().finite(),
        assoc_map(ks, vals).len() == ks.len(),
{
    assert(assoc_map(ks, vals).dom() =~= ks.to_set());
    vstd::seq_lib::seq_to_set_is_finite(ks);
    ks.unique_seq_to_set();
}

/// A map from string keys to values of type `V`.
#[derive(Debug)]
pub struct AnyMap<V> {
    keys: Vec<String>,
    vals: Vec<V>,
}

impl<V> View for AnyMap<V> {
    type V = Map<Seq<char>, V>;

    closed spec fn view(&self) -> Map<Seq<char>, V> {
        assoc_map(key_views(self.keys@), self.vals@)
    }
}

impl<V> AnyMap<V> {
    /// No key is held twice.
    pub closed spec fn wf(&self) -> bool {
        assoc_wf(key_views(self.keys@), self.vals@)
    }

    /// The keys in the order in which they were first inserted.
    pub closed spec fn key_seq(&self) -> Seq<Seq<char>> {
        key_views(self.keys@)
    }

    /// The values in the order of their keys.
    pub closed spec fn value_seq(&self) -> Seq<V> {
        self.vals@
    }

    /// The map is what `key_seq` and `value_seq` pair up.
    pub proof fn lemma_view(&self)
        requires
            self.wf(),
        ensures
            assoc_wf(self.key_seq(), self.value_seq()),
            self@ == assoc_map(self.key_seq(), self.value_seq()),
            self@.dom().finite(),
            self@.len() == self.key_seq().len(),
    {
        lemma_assoc_len(key_views(self.keys@), self.vals@);
    }

    /// The empty map.
    pub fn new() -> (r: Self)
        ensures
            r.wf(),
            r@ == Map::<Seq<char>, V>::empty(),
            r.key_seq() == Seq::<Seq<char>>::empty(),
            r.value_seq() == Seq::<V>::empty(),
    {
        let r = AnyMap { keys: Vec::new(), vals: Vec::new() };
        r
    }

    fn find(&self, key: &str) -> (r: Option<usize>)
        requires
            self.wf(),
        ensures
            match r {
                Some(i) => i < self.keys.len() && key_views(self.keys@)[i as int] == key@,
                None => !key_views(self.keys@).contains(key@),
            },
    {
        let wanted = String::from_str(key);
        let mut i: usize = 0;
        while i < self.keys.len()
            invariant
                i <= self.keys.len(),
                wanted@ == key@,
                forall|j: int| 0 <= j < i ==> key_views(self.keys@)[j] != key@,
            decreases self.keys.len() - i,
        {
            if self.keys[i] == wanted {
                return Some(i);
            }
            i = i + 1;
        }
        None
    }

    /// The value stored under `key`.
    pub fn get(&self, key: &str) -> (r: Option<&V>)
        requires
            self.wf(),
        ensures
            match r {
                Some(v) => self@.contains_key(key@) && *v == self@[key@],
                None => !self@.contains_key(key@),
            },
    {
        match self.find(key) {
            Some(i) => {
                proof {
                    lemma_assoc_at(key_views(self.keys@), self.vals@, i as int);
                }
                Some(&self.vals[i])
            },
            None => None,
        }
    }

    /// Whether a value is stored under `key`.
    pub fn contains_key(&self, key: &str) -> (r: bool)
        requires
            self.wf(),
        ensures
            r == self@.contains_key(key@),
    {
        match self.find(key) {
            Some(i) => {
                proof {
                    lemma_assoc_at(key_views(self.keys@), self.vals@, i as int);
                }
                true
            },
            None => false,
        }
    }

    /// The number of keys.
    pub fn len(&self) -> (r: usize)
        requires
            self.wf(),
        ensures
            r == self@.len(),
            r == self.key_seq().len(),
    {
        proof {
            lemma_assoc_len(key_views(self.keys@), self.vals@);
        }
        self.keys.len()
    }

    /// Whether the map holds nothing.
    pub fn is_empty(&self) -> (r: bool)
        requires
            self.wf(),
        ensures
            r == (self@.len() == 0),
            r == (self@ == Map::<Seq<char>, V>::empty()),
    {
        proof {
            lemma_assoc_len(key_views(self.keys@), self.vals@);
            if self.keys.len() == 0 {
                assert(self@ =~= Map::<Seq<char>, V>::empty());
            } else {
                lemma_assoc_at(key_views(self.keys@), self.vals@, 0);
            }
        }
        self.keys.len() == 0
    }

    /// Stores `val` under `key` and hands back what was stored there.
    pub fn insert(&mut self, key: &str, val: V) -> (r: Option<V>)
        requires
            old(self).wf(),
        ensures
            final(self).wf(),
            final(self)@ == old(self)@.insert(key@, val),
            match r {
                Some(v) => old(self)@.contains_key(key@) && v == old(self)@[key@]
                    && final(self).key_seq() == old(self).key_seq(),
                None => !old(self)@.contains_key(key@)
                    && final(self).key_seq() == old(self).key_seq().push(key@),
            },
    {
        let ghost ks = key_views(self.keys@);
        let ghost vs = self.vals@;
        match self.find(key) {
            Some(i) => {
                proof {
                    lemma_assoc_at(ks, vs, i as int);
                    lemma_assoc_update(ks, vs, i as int, val);
                }
                let mut val = val;
                std::mem::swap(&mut self.vals[i], &mut val);
                Some(val)
            },
            None => {
                proof {
                    lemma_assoc_push(ks, vs, key@, val);
                }
                self.keys.push(String::from_str(key));
                self.vals.push(val);
                assert(key_views(self.keys@) =~= ks.push(key@));
                None
            },
        }
    }

    /// Stores `val` under `key`.
    pub fn set(&mut self, key: &str, val: V)
        requires
            old(self).wf(),
        ensures
            final(self).wf(),
            final(self)@ == old(self)@.insert(key@, val),
    {
        let _ = self.insert(key, val);
    }

    /// Takes the value stored under `key` out of the map.
    pub fn remove(&mut self, key: &str) -> (r: Option<V>)
        requires
            old(self).wf(),
        ensures
            final(self).wf(),
            final(self)@ == old(self)@.remove(key@),
            match r {
                Some(v) => old(self)@.contains_key(key@) && v == old(self)@[key@],
                None => !old(self)@.contains_key(key@),
            },
    {
        let ghost ks = key_views(self.keys@);
        let ghost vs = self.vals@;
        match self.find(key) {
            Some(i) => {
                proof {
                    lemma_assoc_at(ks, vs, i as int);
                    lemma_assoc_remove(ks, vs, i as int);
                }
                let _ = self.keys.remove(i);
                let v = self.vals.remove(i);
                assert(key_views(self.keys@) =~= ks.remove(i as int));
                Some(v)
            },
            None => {
                None
            },
        }
    }

    /// The value stored under `key`, for writing.
    pub fn get_mut(&mut self, key: &str) -> (r: Option<&mut V>)
        requires
            old(self).wf(),
        ensures
            final(self).wf(),
            final(self).key_seq() == old(self).key_seq(),
            match r {
                Some(v) => old(self)@.contains_key(key@) && *v == old(self)@[key@] && final(self)@
                    == old(self)@.insert(key@, *final(v)),
                None => !old(self)@.contains_key(key@) && final(self)@ == old(self)@,
            },
    {
        let ghost ks = key_views(self.keys@);
        let ghost vs = self.vals@;
        match self.find(key) {
            Some(i) => {
                let r = &mut self.vals[i];
                proof {
                    lemma_assoc_at(ks, vs, i as int);
                    lemma_assoc_update(ks, vs, i as int, *final(r));
                }
                Some(r)
            },
            None => None,
        }
    }

    /// The value stored under `key`, for writing; where there is none,
    /// what `f` makes is stored first.
    pub fn get_or_insert_with<F: FnOnce() -> V>(&mut self, key: &str, f: F) -> (r: &mut V)
        requires
            old(self).wf(),
            f.requires(()),
        ensures
            final(self).wf(),
            final(self)@ == old(self)@.insert(key@, *final(r)),
            old(self)@.contains_key(key@) ==> *r == old(self)@[key@],
            !old(self)@.contains_key(key@) ==> f.ensures((), *r),
    {
        let ghost ks = key_views(self.keys@);
        let ghost vs = self.vals@;
        let i = match self.find(key) {
            Some(i) => {
                proof {
                    lemma_assoc_at(ks, vs, i as int);
                }
                i
            },
            None => {
                let val = f();
                proof {
                    lemma_assoc_push(ks, vs, key@, val);
                }
                self.keys.push(String::from_str(key));
                self.vals.push(val);
                assert(key_views(self.keys@) =~= ks.push(key@));
                self.vals.len() - 1
            },
        };
        let ghost ks1 = key_views(self.keys@);
        let ghost vs1 = self.vals@;
        let r = &mut self.vals[i];
        proof {
            lemma_assoc_at(ks1, vs1, i as int);
            lemma_assoc_update(ks1, vs1, i as int, *final(r));
            assert(assoc_map(ks1, vs1).insert(key@, *final(r)) =~= assoc_map(ks, vs).insert(
                key@,
                *final(r),
            ));
        }
        r
    }

    /// The value stored under `key`, for writing; where there is none,
    /// `val` is stored first.
    pub fn get_or_insert(&mut self, key: &str, val: V) -> (r: &mut V)
        requires
            old(self).wf(),
        ensures
            final(self).wf(),
            final(self)@ == old(self)@.insert(key@, *final(r)),
            old(self)@.contains_key(key@) ==> *r == old(self)@[key@],
            !old(self)@.contains_key(key@) ==> *r == val,
    {
        let ghost ks = key_views(self.keys@);
        let ghost vs = self.vals@;
        let i = match self.find(key) {
            Some(i) => {
                proof {
                    lemma_assoc_at(ks, vs, i as int);
                }
                i
            },
            None => {
                proof {
                    lemma_assoc_push(ks, vs, key@, val);
                }
                self.keys.push(String::from_str(key));
                self.vals.push(val);
                assert(key_views(self.keys@) =~= ks.push(key@));
                self.vals.len() - 1
            },
        };
        let ghost ks1 = key_views(self.keys@);
        let ghost vs1 = self.vals@;
        let r = &mut self.vals[i];
        proof {
            lemma_assoc_at(ks1, vs1, i as int);
            lemma_assoc_update(ks1, vs1, i as int, *final(r));
            assert(assoc_map(ks1, vs1).insert(key@, *final(r)) =~= assoc_map(ks, vs).insert(
                key@,
                *final(r),
            ));
        }
        r
    }

    /// The value stored under `key`, for writing; where there is none,
    /// the default value of `V` is stored first.
    pub fn get_or_insert_default(&mut self, key: &str) -> (r: &mut V) where V: Default
        requires
            old(self).wf(),
        ensures
            final(self).wf(),
            final(self)@ == old(self)@.insert(key@, *final(r)),
            old(self)@.contains_key(key@) ==> *r == old(self)@[key@],
            !old(self)@.contains_key(key@) ==> call_ensures(V::default, (), *r),
    {
        let ghost ks = key_views(self.keys@);
        let ghost vs = self.vals@;
        let i = match self.find(key) {
            Some(i) => {
                proof {
                    lemma_assoc_at(ks, vs, i as int);
                }
                i
            },
            None => {
                let val = V::default();
                proof {
                    lemma_assoc_push(ks, vs, key@, val);
                }
                self.keys.push(String::from_str(key));
                self.vals.push(val);
                assert(key_views(self.keys@) =~= ks.push(key@));
                self.vals.len() - 1
            },
        };
        let ghost ks1 = key_views(self.keys@);
        let ghost vs1 = self.vals@;
        let r = &mut self.vals[i];
        proof {
            lemma_assoc_at(ks1, vs1, i as int);
            lemma_assoc_update(ks1, vs1, i as int, *final(r));
            assert(assoc_map(ks1, vs1).insert(key@, *final(r)) =~= assoc_map(ks, vs).insert(
                key@,
                *final(r),
            ));
        }
        r
    }

    /// Moves the pairs of `other` into this map; where both hold a key,
    /// the value of `other` stays.
    pub fn extend(&mut self, other: AnyMap<V>)
        requires
            old(self).wf(),
            other.wf(),
        ensures
            final(self).wf(),
            final(self)@ == old(self)@.union_prefer_right(other@),
    {
        let ghost m0 = self@;
        let ghost ks = key_views(other.keys@);
        let ghost vs = other.vals@;
        let mut other = other;
        while other.keys.len() > 0
            invariant
                self.wf(),
                assoc_wf(ks, vs),
                other.keys.len() == other.vals.len(),
                other.keys.len() <= ks.len(),
                key_views(other.keys@) == ks.take(other.keys.len() as int),
                other.vals@ == vs.take(other.vals.len() as int),
                forall|i: int|
                    other.keys.len() <= i < ks.len() ==> self@.contains_key(#[trigger] ks[i])
                        && self@[ks[i]] == vs[i],
                forall|k: Seq<char>| m0.contains_key(k) ==> self@.contains_key(k),
                forall|k: Seq<char>|
                    self@.contains_key(k) ==> m0.contains_key(k) || (ks.contains(k)
                        && ks.index_of(k) >= other.keys.len()),
                forall|k: Seq<char>|
                    m0.contains_key(k) && !(ks.contains(k) && ks.index_of(k)
                        >= other.keys.len()) ==> self@[k] == m0[k],
            decreases other.keys.len(),
        {
            let ghost n = other.keys.len() as int;
            let ghost before = self@;
            let key = other.keys.pop().unwrap();
            let val = other.vals.pop().unwrap();
            assert(ks.take(n)[n - 1] == ks[n - 1]);
            self.set(key.as_str(), val);
            proof {
                lemma_assoc_at(ks, vs, n - 1);
            }
            assert forall|i: int| n - 1 <= i < ks.len() implies self@.contains_key(
                #[trigger] ks[i],
            ) && self@[ks[i]] == vs[i] by {
                if i >= n {
                    assert(ks[i] != ks[n - 1]);
                    assert(before.contains_key(ks[i]) && before[ks[i]] == vs[i]);
                }
            }
            assert forall|k: Seq<char>| self@.contains_key(k) implies m0.contains_key(k) || (
            ks.contains(k) && ks.index_of(k) >= n - 1) by {
                if k != ks[n - 1] {
                    assert(before.contains_key(k));
                }
            }
            assert forall|k: Seq<char>|
                m0.contains_key(k) && !(ks.contains(k) && ks.index_of(k) >= n - 1)
                implies self@[k] == m0[k] by {
                assert(k != ks[n - 1]);
                assert(before[k] == m0[k]);
            }
        }
        proof {
            let target = m0.union_prefer_right(assoc_map(ks, vs));
            assert forall|k: Seq<char>| self@.contains_key(k) <==> target.contains_key(k) by {
                if ks.contains(k) {
                    let i = ks.index_of(k);
                    assert(self@.contains_key(ks[i]));
                }
            }
            assert forall|k: Seq<char>| self@.contains_key(k) implies self@[k] == target[k] by {
                if ks.contains(k) {
                    let i = ks.index_of(k);
                    lemma_assoc_at(ks, vs, i);
                    assert(self@[ks[i]] == vs[i]);
                }
            }
            assert(self@ =~= target);
        }
    }

    /// The keys, in the order in which they were first inserted.
    pub fn keys(&self) -> (r: Vec<String>)
        requires
            self.wf(),
        ensures
            key_views(r@) == self.key_seq(),
            key_views(r@).to_set() == self@.dom(),
            key_views(r@).no_duplicates(),
    {
        let mut r: Vec<String> = Vec::new();
        let mut i: usize = 0;
        while i < self.keys.len()
            invariant
                i <= self.keys.len(),
                r.len() == i,
                forall|j: int| 0 <= j < i ==> r[j]@ == self.keys[j]@,
            decreases self.keys.len() - i,
        {
            r.push(self.keys[i].clone());
            i = i + 1;
        }
        assert(key_views(r@) =~= key_views(self.keys@));
        proof {
            lemma_assoc_len(key_views(self.keys@), self.vals@);
        }
        r
    }

    /// The values, in the order of their keys.
    pub fn values(&self) -> (r: &Vec<V>)
        requires
            self.wf(),
        ensures
            r@ == self.value_seq(),
            r@.len() == self.key_seq().len(),
            forall|i: int|
                0 <= i < r@.len() ==> self@[#[trigger] self.key_seq()[i]] == r@[i],
    {
        proof {
            assert forall|i: int| 0 <= i < self.vals@.len() implies self@[
                #[trigger] self.key_seq()[i]
            ] == self.vals@[i] by {
                lemma_assoc_at(key_views(self.keys@), self.vals@, i);
            }
        }
        &self.vals
    }

    /// The values, in the order of their keys, for writing.
    pub fn values_mut(&mut self) -> (r: &mut [V])
        requires
            old(self).wf(),
        ensures
            r@ == old(self).value_seq(),
            final(self).key_seq() == old(self).key_seq(),
            final(self).value_seq() == final(r)@,
            final(r)@.len() == r@.len() ==> final(self).wf(),
    {
        self.vals.as_mut_slice()
    }

    /// A cursor that hands out the pairs of the map, in the order in which
    /// the keys were first inserted.
    pub fn iter(&self) -> (r: AnyMapIter<'_, V>)
        requires
            self.wf(),
        ensures
            r.wf(),
            r.position() == 0,
            r.key_seq() == self.key_seq(),
            r.value_seq() == self.value_seq(),
    {
        AnyMapIter { map: self, pos: 0 }
    }

    /// The keys, in order, and the values, in the order of their keys, for
    /// writing.
    pub fn iter_mut(&mut self) -> (r: (&Vec<String>, &mut [V]))
        requires
            old(self).wf(),
        ensures
            key_views(r.0@) == old(self).key_seq(),
            r.1@ == old(self).value_seq(),
            final(self).key_seq() == old(self).key_seq(),
            final(self).value_seq() == final(r.1)@,
            final(r.1)@.len() == r.1@.len() ==> final(self).wf(),
    {
        (&self.keys, self.vals.as_mut_slice())
    }

    /// A cursor that hands out the pairs of the map and keeps none.
    pub fn into_iter(self) -> (r: AnyMapIntoIter<V>)
        requires
            self.wf(),
        ensures
            r.wf(),
            r.key_seq() == self.key_seq(),
            r.value_seq() == self.value_seq(),
    {
        AnyMapIntoIter { keys: self.keys, vals: self.vals }
    }

    /// Empties the map.
    pub fn clear(&mut self)
        requires
            old(self).wf(),
        ensures
            final(self).wf(),
            final(self)@ == Map::<Seq<char>, V>::empty(),
    {
        self.keys.clear();
        self.vals.clear();
    }
}

/// A cursor over the pairs of a map.
pub struct AnyMapIter<'a, V> {
    map: &'a AnyMap<V>,
    pos: usize,
}

impl<'a, V> AnyMapIter<'a, V> {
    /// The cursor stands on a well-formed map.
    pub closed spec fn wf(&self) -> bool {
        self.map.wf()
    }

    /// How many pairs were handed out.
    pub closed spec fn position(&self) -> nat {
        self.pos as nat
    }

    /// The keys of the map that the cursor walks.
    pub closed spec fn key_seq(&self) -> Seq<Seq<char>> {
        self.map.key_seq()
    }

    /// The values of the map that the cursor walks.
    pub closed spec fn value_seq(&self) -> Seq<V> {
        self.map.value_seq()
    }

    /// The next pair, if one is left.
    pub fn next(&mut self) -> (r: Option<(&'a String, &'a V)>)
        requires
            old(self).wf(),
        ensures
            final(self).wf(),
            final(self).key_seq() == old(self).key_seq(),
            final(self).value_seq() == old(self).value_seq(),
            match r {
                Some((k, v)) => old(self).position() < old(self).key_seq().len()
                    && k@ == old(self).key_seq()[old(self).position() as int]
                    && *v == old(self).value_seq()[old(self).position() as int]
                    && final(self).position() == old(self).position() + 1,
                None => old(self).position() >= old(self).key_seq().len()
                    && final(self).position() == old(self).position(),
            },
    {
        if self.pos < self.map.keys.len() {
            let i = self.pos;
            self.pos = i + 1;
            Some((&self.map.keys[i], &self.map.vals[i]))
        } else {
            None
        }
    }

    /// At least and at most how many pairs are left.
    pub fn size_hint(&self) -> (r: (usize, Option<usize>))
        requires
            self.wf(),
        ensures
            r.0 as int == if self.position() <= self.key_seq().len() {
                self.key_seq().len() - self.position()
            } else {
                0
            },
            r.1 == Some(r.0),
    {
        let left = if self.pos <= self.map.keys.len() {
            self.map.keys.len() - self.pos
        } else {
            0
        };
        (left, Some(left))
    }
}

/// A cursor that owns the pairs of a map and hands them out.
pub struct AnyMapIntoIter<V> {
    keys: Vec<String>,
    vals: Vec<V>,
}

impl<V> AnyMapIntoIter<V> {
    /// As many keys as values are left.
    pub closed spec fn wf(&self) -> bool {
        self.keys.len() == self.vals.len()
    }

    /// The keys that are left.
    pub closed spec fn key_seq(&self) -> Seq<Seq<char>> {
        key_views(self.keys@)
    }

    /// The values that are left.
    pub closed spec fn value_seq(&self) -> Seq<V> {
        self.vals@
    }

    /// The first pair that is left, if there is one.
    pub fn next(&mut self) -> (r: Option<(String, V)>)
        requires
            old(self).wf(),
        ensures
            final(self).wf(),
            match r {
                Some((k, v)) => old(self).key_seq().len() > 0
                    && k@ == old(self).key_seq()[0]
                    && v == old(self).value_seq()[0]
                    && final(self).key_seq() == old(self).key_seq().drop_first()
                    && final(self).value_seq() == old(self).value_seq().drop_first(),
                None => old(self).key_seq().len() == 0
                    && final(self).key_seq() == old(self).key_seq()
                    && final(self).value_seq() == old(self).value_seq(),
            },
    {
        if self.keys.len() == 0 {
            None
        } else {
            let k = self.keys.remove(0);
            let v = self.vals.remove(0);
            Some((k, v))
        }
    }
}

} // verus!
