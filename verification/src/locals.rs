//! Values that handlers of one chain hand to each other, by name.
//!
//! The map behind a `Locals` is made when the first value is stored, so a
//! request that stores nothing carries none.

use vstd::prelude::*;
use vstd::string::*;
use crate::any_map::{key_views, AnyMap, AnyMapIntoIter, AnyMapIter};

verus! {

/// Named values of one request or response.
#[derive(Debug)]
pub struct Locals<V> {
    map: Option<AnyMap<V>>,
}

impl<V> View for Locals<V> {
    type V = Map<Seq<char>, V>;

    closed spec fn view(&self) -> Map<Seq<char>, V> {
        match self.map {
            Some(m) => m@,
            None => Map::empty(),
        }
    }
}

impl<V> Locals<V> {
    /// The map behind the locals, if there is one, is well-formed.
    pub closed spec fn wf(&self) -> bool {
        match self.map {
            Some(m) => m.wf(),
            None => true,
        }
    }

    /// The keys in the order in which they were first inserted.
    pub closed spec fn key_seq(&self) -> Seq<Seq<char>> {
        match self.map {
            Some(m) => m.key_seq(),
            None => Seq::empty(),
        }
    }

    /// The values in the order of their keys.
    pub closed spec fn value_seq(&self) -> Seq<V> {
        match self.map {
            Some(m) => m.value_seq(),
            None => Seq::empty(),
        }
    }

    /// Locals without values.
    pub fn new() -> (r: Self)
        ensures
            r.wf(),
            r@ == Map::<Seq<char>, V>::empty(),
    {
        Locals { map: None }
    }

    /// Stores `val` under `key` and hands back what was stored there.
    pub fn insert(&mut self, key: &str, val: V) -> (r: Option<V>)
        requires
            old(self).wf(),
        ensures
            final(self).wf(),
            final(self)@ == old(self)@.insert(key@, val),
            match r {
                Some(v) => old(self)@.contains_key(key@) && v == old(self)@[key@],
                None => !old(self)@.contains_key(key@),
            },
    {
        if self.map.is_none() {
            self.map = Some(AnyMap::new());
        }
        match &mut self.map {
            Some(m) => m.insert(key, val),
            None => None,
        }
    }

    /// The value stored under `key`.
    pub fn get(&self, key: &str) -> (r: Option<&V>)
        requires
            self.wf(),
        ensures
            match r {
                Some(v) => self@.contains_key(key@) && *v == self@[key@],
                None => !self@.contains_key(key@),
            },
    {
        match &self.map {
            Some(m) => m.get(key),
            None => None,
        }
    }

    /// The value stored under `key`, for writing.
    pub fn get_mut(&mut self, key: &str) -> (r: Option<&mut V>)
        requires
            old(self).wf(),
        ensures
            final(self).wf(),
            match r {
                Some(v) => old(self)@.contains_key(key@) && *v == old(self)@[key@] && final(self)@
                    == old(self)@.insert(key@, *final(v)),
                None => !old(self)@.contains_key(key@) && final(self)@ == old(self)@,
            },
    {
        match &mut self.map {
            Some(m) => m.get_mut(key),
            None => None,
        }
    }

    /// The value stored under `key`, for writing; where there is none,
    /// `value` is stored first.
    pub fn get_or_insert(&mut self, key: &str, value: V) -> (r: &mut V)
        requires
            old(self).wf(),
        ensures
            final(self).wf(),
            final(self)@ == old(self)@.insert(key@, *final(r)),
            old(self)@.contains_key(key@) ==> *r == old(self)@[key@],
            !old(self)@.contains_key(key@) ==> *r == value,
    {
        if self.map.is_none() {
            self.map = Some(AnyMap::new());
        }
        match &mut self.map {
            Some(m) => m.get_or_insert(key, value),
            None => vstd::pervasive::unreached(),
        }
    }

    /// The value stored under `key`, for writing; where there is none,
    /// what `f` makes is stored first.
    pub fn get_or_insert_with<F: FnOnce() -> V>(&mut self, key: &str, f: F) -> (r: &mut V)
        requires
            old(self).wf(),
            f.requires(()),
        ensures
            final(self).wf(),
            final(self)@ == old(self)@.insert(key@, *final(r)),
            old(self)@.contains_key(key@) ==> *r == old(self)@[key@],
            !old(self)@.contains_key(key@) ==> f.ensures((), *r),
    {
        if self.map.is_none() {
            self.map = Some(AnyMap::new());
        }
        match &mut self.map {
            Some(m) => m.get_or_insert_with(key, f),
            None => vstd::pervasive::unreached(),
        }
    }

    /// The value stored under `key`, for writing; where there is none,
    /// the default value of `V` is stored first.
    pub fn get_or_insert_default(&mut self, key: &str) -> (r: &mut V) where V: Default
        requires
            old(self).wf(),
        ensures
            final(self).wf(),
            final(self)@ == old(self)@.insert(key@, *final(r)),
            old(self)@.contains_key(key@) ==> *r == old(self)@[key@],
            !old(self)@.contains_key(key@) ==> call_ensures(V::default, (), *r),
    {
        if self.map.is_none() {
            self.map = Some(AnyMap::new());
        }
        match &mut self.map {
            Some(m) => m.get_or_insert_default(key),
            None => vstd::pervasive::unreached(),
        }
    }

    /// Takes the value stored under `key` out.
    pub fn remove(&mut self, key: &str) -> (r: Option<V>)
        requires
            old(self).wf(),
        ensures
            final(self).wf(),
            final(self)@ == old(self)@.remove(key@),
            match r {
                Some(v) => old(self)@.contains_key(key@) && v == old(self)@[key@],
                None => !old(self)@.contains_key(key@),
            },
    {
        match &mut self.map {
            Some(m) => m.remove(key),
            None => {
                None
            },
        }
    }

    /// Takes all values out.
    pub fn clear(&mut self)
        requires
            old(self).wf(),
        ensures
            final(self).wf(),
            final(self)@ == Map::<Seq<char>, V>::empty(),
    {
        match &mut self.map {
            Some(m) => m.clear(),
            None => {},
        }
    }

    /// Whether no value is stored.
    pub fn is_empty(&self) -> (r: bool)
        requires
            self.wf(),
        ensures
            r == (self@ == Map::<Seq<char>, V>::empty()),
    {
        match &self.map {
            Some(m) => m.is_empty(),
            None => true,
        }
    }

    /// The number of values.
    pub fn len(&self) -> (r: usize)
        requires
            self.wf(),
        ensures
            r == self@.len(),
    {
        match &self.map {
            Some(m) => m.len(),
            None => 0,
        }
    }

    /// Moves the values of `other` in; where both hold a key, the value of
    /// `other` stays.
    pub fn extend(&mut self, other: Locals<V>)
        requires
            old(self).wf(),
            other.wf(),
        ensures
            final(self).wf(),
            final(self)@ == old(self)@.union_prefer_right(other@),
    {
        match other.map {
            Some(theirs) => {
                if self.map.is_none() {
                    self.map = Some(theirs);
                } else {
                    match &mut self.map {
                        Some(m) => m.extend(theirs),
                        None => {},
                    }
                }
            },
            None => {
                assert(self@ =~= self@.union_prefer_right(Map::<Seq<char>, V>::empty()));
            },
        }
    }

    /// Whether a value is stored under `key`.
    pub fn contains_key(&self, key: &str) -> (r: bool)
        requires
            self.wf(),
        ensures
            r == self@.contains_key(key@),
    {
        match &self.map {
            Some(m) => m.contains_key(key),
            None => false,
        }
    }

    /// The keys, in the order in which they were first inserted.
    pub fn keys(&self) -> (r: Vec<String>)
        requires
            self.wf(),
        ensures
            key_views(r@) == self.key_seq(),
            key_views(r@).to_set() == self@.dom(),
            key_views(r@).no_duplicates(),
    {
        match &self.map {
            Some(m) => m.keys(),
            None => {
                let r: Vec<String> = Vec::new();
                r
            },
        }
    }

    /// The values, in the order of their keys.
    pub fn values(&self) -> (r: Vec<&V>)
        requires
            self.wf(),
        ensures
            r@.len() == self.value_seq().len(),
            forall|i: int| 0 <= i < r@.len() ==> *(#[trigger] r@[i]) == self.value_seq()[i],
    {
        let mut r: Vec<&V> = Vec::new();
        match &self.map {
            Some(m) => {
                let vals = m.values();
                let mut i: usize = 0;
                while i < vals.len()
                    invariant
                        i <= vals.len(),
                        r.len() == i,
                        vals@ == self.value_seq(),
                        forall|j: int| 0 <= j < i ==> *(#[trigger] r@[j]) == vals@[j],
                    decreases vals.len() - i,
                {
                    r.push(&vals[i]);
                    i = i + 1;
                }
            },
            None => {},
        }
        r
    }

    /// A cursor that hands out the pairs, in the order in which the keys
    /// were first inserted.
    pub fn iter(&self) -> (r: LocalsIter<'_, V>)
        requires
            self.wf(),
        ensures
            r.wf(),
            r.position() == 0,
            r.key_seq() == self.key_seq(),
            r.value_seq() == self.value_seq(),
    {
        match &self.map {
            Some(m) => LocalsIter { inner: Some(m.iter()) },
            None => LocalsIter { inner: None },
        }
    }

    /// A cursor that hands out the pairs and keeps none.
    pub fn into_iter(self) -> (r: LocalsIntoIter<V>)
        requires
            self.wf(),
        ensures
            r.wf(),
            r.key_seq() == self.key_seq(),
            r.value_seq() == self.value_seq(),
    {
        match self.map {
            Some(m) => LocalsIntoIter { inner: m.into_iter() },
            None => LocalsIntoIter { inner: AnyMap::new().into_iter() },
        }
    }
}

/// A cursor over the pairs of a `Locals`.
pub struct LocalsIter<'a, V> {
    inner: Option<AnyMapIter<'a, V>>,
}

impl<'a, V> LocalsIter<'a, V> {
    /// The cursor stands on well-formed locals.
    pub closed spec fn wf(&self) -> bool {
        match self.inner {
            Some(it) => it.wf(),
            None => true,
        }
    }

    /// How many pairs were handed out.
    pub closed spec fn position(&self) -> nat {
        match self.inner {
            Some(it) => it.position(),
            None => 0,
        }
    }

    /// The keys that the cursor walks.
    pub closed spec fn key_seq(&self) -> Seq<Seq<char>> {
        match self.inner {
            Some(it) => it.key_seq(),
            None => Seq::empty(),
        }
    }

    /// The values that the cursor walks.
    pub closed spec fn value_seq(&self) -> Seq<V> {
        match self.inner {
            Some(it) => it.value_seq(),
            None => Seq::empty(),
        }
    }

    /// The next pair, if one is left.
    pub fn next(&mut self) -> (r: Option<(&'a String, &'a V)>)
        requires
            old(self).wf(),
        ensures
            final(self).wf(),
            final(self).key_seq() == old(self).key_seq(),
            final(self).value_seq() == old(self).value_seq(),
            match r {
                Some((k, v)) => old(self).position() < old(self).key_seq().len()
                    && k@ == old(self).key_seq()[old(self).position() as int]
                    && *v == old(self).value_seq()[old(self).position() as int]
                    && final(self).position() == old(self).position() + 1,
                None => old(self).position() >= old(self).key_seq().len()
                    && final(self).position() == old(self).position(),
            },
    {
        match &mut self.inner {
            Some(it) => it.next(),
            None => None,
        }
    }
}

/// A cursor that owns the pairs of a `Locals` and hands them out.
pub struct LocalsIntoIter<V> {
    inner: AnyMapIntoIter<V>,
}

impl<V> LocalsIntoIter<V> {
    /// As many keys as values are left.
    pub closed spec fn wf(&self) -> bool {
        self.inner.wf()
    }

    /// The keys that are left.
    pub closed spec fn key_seq(&self) -> Seq<Seq<char>> {
        self.inner.key_seq()
    }

    /// The values that are left.
    pub closed spec fn value_seq(&self) -> Seq<V> {
        self.inner.value_seq()
    }

    /// The first pair that is left, if there is one.
    pub fn next(&mut self) -> (r: Option<(String, V)>)
        requires
            old(self).wf(),
        ensures
            final(self).wf(),
            match r {
                Some((k, v)) => old(self).key_seq().len() > 0
                    && k@ == old(self).key_seq()[0]
                    && v == old(self).value_seq()[0]
                    && final(self).key_seq() == old(self).key_seq().drop_first()
                    && final(self).value_seq() == old(self).value_seq().drop_first(),
                None => old(self).key_seq().len() == 0
                    && final(self).key_seq() == old(self).key_seq()
                    && final(self).value_seq() == old(self).value_seq(),
            },
    {
        self.inner.next()
    }
}

} // verus!
