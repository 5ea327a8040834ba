use vstd::prelude::*;
use vstd::std_specs::cmp::PartialEqSpec;
use crate::container::{deref_opt, Container};
use crate::error::{ConfigError, Error};
use crate::values::{derefs, occupied, Values};

verus! {

/// The first position at or after `i` whose declared key `key` compares
/// equal to, if any.
pub open spec fn slot_from<K: PartialEq>(keys: Seq<K>, key: K, i: nat) -> Option<nat>
    decreases keys.len() - i,
{
    if i >= keys.len() {
        None
    } else if key.eq_spec(&keys[i as int]) {
        Some(i)
    } else {
        slot_from(keys, key, i + 1)
    }
}

/// The slot that `key` addresses: the first declared key it equals.
pub open spec fn slot_of<K: PartialEq>(keys: Seq<K>, key: K) -> Option<nat> {
    slot_from(keys, key, 0)
}

/// `key` equals one of the declared keys.
pub open spec fn is_declared<K: PartialEq>(keys: Seq<K>, key: K) -> bool {
    exists|j: int| 0 <= j < keys.len() && key.eq_spec(&keys[j])
}

/// What `slot_from` finds: a matching position with no match before it
/// (from `i` on), or no match from `i` on.
pub proof fn lemma_slot_from<K: PartialEq>(keys: Seq<K>, key: K, i: nat)
    ensures
        match slot_from(keys, key, i) {
            Some(j) => i <= j < keys.len() && key.eq_spec(&keys[j as int]) && forall|l: int|
                i <= l < j ==> !key.eq_spec(&#[trigger] keys[l]),
            None => forall|l: int| i <= l < keys.len() ==> !key.eq_spec(&#[trigger] keys[l]),
        },
    decreases keys.len() - i,
{
    if i < keys.len() && !key.eq_spec(&keys[i as int]) {
        lemma_slot_from(keys, key, i + 1);
    }
}

/// A key addresses a slot exactly when it is declared, and the slot is the
/// first declared key it equals.
pub proof fn lemma_slot_of<K: PartialEq>(keys: Seq<K>, key: K)
    ensures
        slot_of(keys, key) is Some <==> is_declared(keys, key),
        match slot_of(keys, key) {
            Some(j) => j < keys.len() && key.eq_spec(&keys[j as int]) && forall|l: int|
                0 <= l < j ==> !key.eq_spec(&#[trigger] keys[l]),
            None => true,
        },
{
    lemma_slot_from(keys, key, 0);
}

/// Reads the success value of a lookup as the value it points to.
pub open spec fn deref_result<T>(r: Result<Option<&T>, Error>) -> Result<Option<T>, Error> {
    match r {
        Ok(o) => Ok(deref_opt(o)),
        Err(e) => Err(e),
    }
}

/// A keyed container over a declared, ordered key list. The i-th declared
/// key addresses slot i of the underlying container. An undeclared key is
/// reported as `Error::KeyNotFound`.
pub struct FastMap<K: PartialEq, T> {
    keys: Vec<K>,
    container: Container<K, T>,
}

impl<K: PartialEq, T> FastMap<K, T> {
    #[verifier::type_invariant]
    spec fn well_formed(&self) -> bool {
        &&& self.keys@.len() <= self.container@.len()
        &&& K::obeys_eq_spec()
    }

    /// The declared keys, in declaration order.
    pub closed spec fn keys(&self) -> Seq<K> {
        self.keys@
    }

    /// The slots of the declared keys: entry i belongs to declared key i.
    pub closed spec fn slots(&self) -> Seq<Option<T>> {
        Seq::new(self.keys@.len(), |i: int| self.container@[i])
    }

    /// There is one slot per declared key.
    pub broadcast proof fn lemma_slot_count(&self)
        ensures
            #[trigger] self.slots().len() == self.keys().len(),
    {
    }

    /// Number of slots of the underlying container.
    pub closed spec fn capacity_spec(&self) -> nat {
        self.container@.len()
    }

    /// The slot that `key` addresses, if it is declared.
    pub open spec fn slot(&self, key: K) -> Option<nat> {
        slot_of(self.keys(), key)
    }

    /// What a lookup of `key` finds.
    pub open spec fn lookup(&self, key: K) -> Result<Option<T>, Error> {
        match self.slot(key) {
            Some(i) => Ok(self.slots()[i as int]),
            None => Err(Error::KeyNotFound),
        }
    }

    /// The slots after storing `val` under `key` (unchanged if `key` is
    /// undeclared).
    pub open spec fn slots_after_insert(&self, key: K, val: T) -> Seq<Option<T>> {
        match self.slot(key) {
            Some(i) => self.slots().update(i as int, Some(val)),
            None => self.slots(),
        }
    }

    /// The slots after emptying the slot of `key` (unchanged if `key` is
    /// undeclared).
    pub open spec fn slots_after_remove(&self, key: K) -> Seq<Option<T>> {
        match self.slot(key) {
            Some(i) => self.slots().update(i as int, None),
            None => self.slots(),
        }
    }

    /// A map over `keys` whose container has `capacity` slots, all vacant.
    /// Fails when more keys are declared than there are slots.
    pub fn new(keys: Vec<K>, capacity: usize) -> (r: Result<Self, ConfigError>)
        requires
            K::obeys_eq_spec(),
        ensures
            r is Ok <==> keys@.len() <= capacity,
            r is Err ==> r->Err_0 == ConfigError::TooManyKeys,
            r is Ok ==> {
                &&& r->Ok_0.keys() == keys@
                &&& r->Ok_0.capacity_spec() == capacity
                &&& forall|i: int| 0 <= i < keys@.len() ==> #[trigger] r->Ok_0.slots()[i] is None
            },
    {
        if keys.len() > capacity {
            return Err(ConfigError::TooManyKeys);
        }
        let container = Container::new(capacity);
        Ok(FastMap { keys, container })
    }

    /// Number of slots of the underlying container.
    pub fn capacity(&self) -> (r: usize)
        ensures
            r == self.capacity_spec(),
    {
        self.container.capacity()
    }

    /// Number of declared keys.
    pub fn key_count(&self) -> (r: usize)
        ensures
            r == self.keys().len(),
    {
        self.keys.len()
    }

    /// The position of the slot that `key` addresses: the first declared key
    /// that `key` equals, compared in declaration order.
    pub fn slot_index(&self, key: &K) -> (r: Option<usize>)
        ensures
            match r {
                Some(i) => self.slot(*key) == Some(i as nat),
                None => self.slot(*key) is None,
            },
    {
        proof {
            use_type_invariant(self);
        }
        let mut i: usize = 0;
        while i < self.keys.len()
            invariant
                K::obeys_eq_spec(),
                i <= self.keys@.len(),
                slot_of(self.keys@, *key) == slot_from(self.keys@, *key, i as nat),
            decreases self.keys@.len() - i,
        {
            if key.eq(&self.keys[i]) {
                return Some(i);
            }
            i = i + 1;
        }
        None
    }

    /// Borrows the value stored under `key`: `Ok(None)` when its slot is
    /// vacant, `Err(KeyNotFound)` when `key` is undeclared.
    pub fn get(&self, key: &K) -> (r: Result<Option<&T>, Error>)
        ensures
            deref_result(r) == self.lookup(*key),
    {
        proof {
            use_type_invariant(self);
            lemma_slot_of(self.keys(), *key);
        }
        match self.slot_index(key) {
            Some(i) => Ok(self.container.slot(i)),
            None => Err(Error::KeyNotFound),
        }
    }

    /// Exclusive access to the value stored under `key`: `Ok(None)` when its
    /// slot is vacant, `Err(KeyNotFound)` when `key` is undeclared.
    pub fn get_mut(&mut self, key: &K) -> (r: Result<Option<&mut T>, Error>)
        ensures
            final(self).keys() == old(self).keys(),
            final(self).capacity_spec() == old(self).capacity_spec(),
            match old(self).lookup(*key) {
                Err(e) => r matches Err(e2) && e2 == e && final(self).slots() == old(self).slots(),
                Ok(None) => r matches Ok(None) && final(self).slots() == old(self).slots(),
                Ok(Some(v)) => r matches Ok(Some(m)) && *m == v && final(self).slots() == old(
                    self,
                ).slots().update(old(self).slot(*key)->0 as int, Some(*final(m))),
            },
    {
        proof {
            use_type_invariant(&*self);
            lemma_slot_of(self.keys(), *key);
        }
        match self.slot_index(key) {
            Some(i) => {
                let r = self.container.slot_mut(i);
                Ok(r)
            },
            None => Err(Error::KeyNotFound),
        }
    }

    /// Stores `val` under `key` and hands back what the slot held before;
    /// `Err(KeyNotFound)` (and no change) when `key` is undeclared.
    pub fn insert(&mut self, key: &K, val: T) -> (r: Result<Option<T>, Error>)
        ensures
            r == old(self).lookup(*key),
            final(self).keys() == old(self).keys(),
            final(self).capacity_spec() == old(self).capacity_spec(),
            final(self).slots() == old(self).slots_after_insert(*key, val),
    {
        proof {
            use_type_invariant(&*self);
            lemma_slot_of(self.keys(), *key);
        }
        match self.slot_index(key) {
            Some(i) => {
                let prior = self.container.replace(i, val);
                assert(self.slots() =~= old(self).slots().update(i as int, Some(val)));
                Ok(prior)
            },
            None => Err(Error::KeyNotFound),
        }
    }

    /// Empties the slot of `key` and hands back what it held;
    /// `Err(KeyNotFound)` (and no change) when `key` is undeclared.
    pub fn remove(&mut self, key: &K) -> (r: Result<Option<T>, Error>)
        ensures
            r == old(self).lookup(*key),
            final(self).keys() == old(self).keys(),
            final(self).capacity_spec() == old(self).capacity_spec(),
            final(self).slots() == old(self).slots_after_remove(*key),
    {
        proof {
            use_type_invariant(&*self);
            lemma_slot_of(self.keys(), *key);
        }
        match self.slot_index(key) {
            Some(i) => {
                let prior = self.container.take(i);
                assert(self.slots() =~= old(self).slots().update(i as int, None));
                Ok(prior)
            },
            None => Err(Error::KeyNotFound),
        }
    }

    /// The values of the occupied slots, in declaration order.
    pub fn values(&self) -> (r: Values<'_, T>)
        ensures
            r.remaining() == occupied(self.slots()),
    {
        proof {
            use_type_invariant(self);
        }
        let n = self.keys.len();
        let mut items: Vec<Option<&T>> = Vec::with_capacity(n);
        let mut i: usize = 0;
        while i < n
            invariant
                n == self.keys@.len(),
                n <= self.container@.len(),
                i <= n,
                items@.len() == i,
                forall|j: int| 0 <= j < i ==> deref_opt(#[trigger] items@[j]) == self.container@[j],
            decreases n - i,
        {
            items.push(self.container.slot(i));
            i = i + 1;
        }
        assert(derefs(items@) =~= self.slots());
        Values::new(items)
    }
}

} // verus!
