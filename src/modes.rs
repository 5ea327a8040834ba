use vstd::prelude::*;
use vstd::std_specs::cmp::PartialEqSpec;
use crate::container::deref_opt;
use crate::error::{ConfigError, Error};
use crate::map::{is_declared, lemma_slot_of, FastMap};
use crate::values::{occupied, Values};

verus! {

/// Folds "key not declared" into "no entry".
pub open spec fn or_none<T>(r: Result<Option<T>, Error>) -> Option<T> {
    match r {
        Ok(o) => o,
        Err(_) => None,
    }
}

/// A keyed container that treats an undeclared key like a vacant slot:
/// lookups find nothing and updates change nothing.
pub struct EasyMap<K: PartialEq, T> {
    map: FastMap<K, T>,
}

impl<K: PartialEq, T> EasyMap<K, T> {
    /// The strict container this one is built on.
    pub closed spec fn strict(&self) -> FastMap<K, T> {
        self.map
    }

    /// An easy-mode map over `keys` whose container has `capacity` slots,
    /// all vacant. Fails when more keys are declared than there are slots.
    pub fn new(keys: Vec<K>, capacity: usize) -> (r: Result<Self, ConfigError>)
        requires
            K::obeys_eq_spec(),
        ensures
            r is Ok <==> keys@.len() <= capacity,
            r is Err ==> r->Err_0 == ConfigError::TooManyKeys,
            r is Ok ==> {
                &&& r->Ok_0.strict().keys() == keys@
                &&& r->Ok_0.strict().capacity_spec() == capacity
                &&& forall|i: int| 0 <= i < keys@.len() ==> #[trigger] r->Ok_0.strict().slots()[i] is None
            },
    {
        match FastMap::new(keys, capacity) {
            Ok(map) => Ok(EasyMap { map }),
            Err(e) => Err(e),
        }
    }

    /// Borrows the value stored under `key`, if any.
    pub fn get(&self, key: &K) -> (r: Option<&T>)
        ensures
            deref_opt(r) == or_none(self.strict().lookup(*key)),
    {
        match self.map.get(key) {
            Ok(o) => o,
            Err(_) => None,
        }
    }

    /// Exclusive access to the value stored under `key`, if any.
    pub fn get_mut(&mut self, key: &K) -> (r: Option<&mut T>)
        ensures
            final(self).strict().keys() == old(self).strict().keys(),
            final(self).strict().capacity_spec() == old(self).strict().capacity_spec(),
            match or_none(old(self).strict().lookup(*key)) {
                None => r is None && final(self).strict().slots() == old(self).strict().slots(),
                Some(v) => r matches Some(m) && *m == v && final(self).strict().slots() == old(
                    self,
                ).strict().slots().update(old(self).strict().slot(*key)->0 as int, Some(*final(m))),
            },
    {
        match self.map.get_mut(key) {
            Ok(o) => o,
            Err(_) => None,
        }
    }

    /// Stores `val` under `key` and hands back what the slot held before;
    /// an undeclared key changes nothing.
    pub fn insert(&mut self, key: &K, val: T) -> (r: Option<T>)
        ensures
            r == or_none(old(self).strict().lookup(*key)),
            final(self).strict().keys() == old(self).strict().keys(),
            final(self).strict().capacity_spec() == old(self).strict().capacity_spec(),
            final(self).strict().slots() == old(self).strict().slots_after_insert(*key, val),
    {
        match self.map.insert(key, val) {
            Ok(o) => o,
            Err(_) => None,
        }
    }

    /// Empties the slot of `key` and hands back what it held; an undeclared
    /// key changes nothing.
    pub fn remove(&mut self, key: &K) -> (r: Option<T>)
        ensures
            r == or_none(old(self).strict().lookup(*key)),
            final(self).strict().keys() == old(self).strict().keys(),
            final(self).strict().capacity_spec() == old(self).strict().capacity_spec(),
            final(self).strict().slots() == old(self).strict().slots_after_remove(*key),
    {
        match self.map.remove(key) {
            Ok(o) => o,
            Err(_) => None,
        }
    }

    /// The values of the occupied slots, in declaration order.
    pub fn values(&self) -> (r: Values<'_, T>)
        ensures
            r.remaining() == occupied(self.strict().slots()),
    {
        self.map.values()
    }
}

/// A keyed container for callers that only ever pass declared keys; an
/// undeclared key is outside every operation's contract.
pub struct InfallibleMap<K: PartialEq, T> {
    map: FastMap<K, T>,
}

impl<K: PartialEq, T> InfallibleMap<K, T> {
    /// The strict container this one is built on.
    pub closed spec fn strict(&self) -> FastMap<K, T> {
        self.map
    }

    /// An infallible-mode map over `keys` whose container has `capacity`
    /// slots, all vacant. Fails when more keys are declared than there are
    /// slots.
    pub fn new(keys: Vec<K>, capacity: usize) -> (r: Result<Self, ConfigError>)
        requires
            K::obeys_eq_spec(),
        ensures
            r is Ok <==> keys@.len() <= capacity,
            r is Err ==> r->Err_0 == ConfigError::TooManyKeys,
            r is Ok ==> {
                &&& r->Ok_0.strict().keys() == keys@
                &&& r->Ok_0.strict().capacity_spec() == capacity
                &&& forall|i: int| 0 <= i < keys@.len() ==> #[trigger] r->Ok_0.strict().slots()[i] is None
            },
    {
        match FastMap::new(keys, capacity) {
            Ok(map) => Ok(InfallibleMap { map }),
            Err(e) => Err(e),
        }
    }

    /// Borrows the value stored under `key`, if any.
    pub fn get(&self, key: &K) -> (r: Option<&T>)
        requires
            is_declared(self.strict().keys(), *key),
        ensures
            self.strict().lookup(*key) == Ok::<Option<T>, Error>(deref_opt(r)),
    {
        proof {
            lemma_slot_of(self.strict().keys(), *key);
        }
        match self.map.get(key) {
            Ok(o) => o,
            Err(_) => {
                proof {
                    assert(false);
                }
                None
            },
        }
    }

    /// Exclusive access to the value stored under `key`, if any.
    pub fn get_mut(&mut self, key: &K) -> (r: Option<&mut T>)
        requires
            is_declared(old(self).strict().keys(), *key),
        ensures
            final(self).strict().keys() == old(self).strict().keys(),
            final(self).strict().capacity_spec() == old(self).strict().capacity_spec(),
            match old(self).strict().lookup(*key) {
                Ok(Some(v)) => r matches Some(m) && *m == v && final(self).strict().slots() == old(
                    self,
                ).strict().slots().update(old(self).strict().slot(*key)->0 as int, Some(*final(m))),
                _ => r is None && final(self).strict().slots() == old(self).strict().slots(),
            },
    {
        proof {
            lemma_slot_of(self.strict().keys(), *key);
        }
        match self.map.get_mut(key) {
            Ok(o) => o,
            Err(_) => {
                proof {
                    assert(false);
                }
                None
            },
        }
    }

    /// Stores `val` under `key` and hands back what the slot held before.
    pub fn insert(&mut self, key: &K, val: T) -> (r: Option<T>)
        requires
            is_declared(old(self).strict().keys(), *key),
        ensures
            old(self).strict().lookup(*key) == Ok::<Option<T>, Error>(r),
            final(self).strict().keys() == old(self).strict().keys(),
            final(self).strict().capacity_spec() == old(self).strict().capacity_spec(),
            final(self).strict().slots() == old(self).strict().slots_after_insert(*key, val),
    {
        proof {
            lemma_slot_of(self.strict().keys(), *key);
        }
        match self.map.insert(key, val) {
            Ok(o) => o,
            Err(_) => {
                proof {
                    assert(false);
                }
                None
            },
        }
    }

    /// Empties the slot of `key` and hands back what it held.
    pub fn remove(&mut self, key: &K) -> (r: Option<T>)
        requires
            is_declared(old(self).strict().keys(), *key),
        ensures
            old(self).strict().lookup(*key) == Ok::<Option<T>, Error>(r),
            final(self).strict().keys() == old(self).strict().keys(),
            final(self).strict().capacity_spec() == old(self).strict().capacity_spec(),
            final(self).strict().slots() == old(self).strict().slots_after_remove(*key),
    {
        proof {
            lemma_slot_of(self.strict().keys(), *key);
        }
        match self.map.remove(key) {
            Ok(o) => o,
            Err(_) => {
                proof {
                    assert(false);
                }
                None
            },
        }
    }

    /// The values of the occupied slots, in declaration order.
    pub fn values(&self) -> (r: Values<'_, T>)
        ensures
            r.remaining() == occupied(self.strict().slots()),
    {
        self.map.values()
    }
}

} // verus!
