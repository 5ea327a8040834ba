use vstd::prelude::*;
use crate::error::Error;
use crate::map::{is_declared, lemma_slot_of, FastMap};
use crate::modes::or_none;
use crate::values::occupied;

verus! {

broadcast use FastMap::lemma_slot_count;

/// Storing `v` under a declared key `k` and then looking `k` up finds `v`:
/// `m1` is any map that `m0.insert(&k, v)` can leave behind.
pub proof fn lemma_insert_then_get<K: PartialEq, T>(m0: FastMap<K, T>, m1: FastMap<K, T>, k: K, v: T)
    requires
        is_declared(m0.keys(), k),
        m1.keys() == m0.keys(),
        m1.slots() == m0.slots_after_insert(k, v),
    ensures
        m1.lookup(k) == Ok::<Option<T>, Error>(Some(v)),
{
    lemma_slot_of(m0.keys(), k);
}

/// Storing `v2` under a declared key `k` that holds `v1` hands back `v1`,
/// and a lookup of `k` afterwards finds `v2`: `m1` is any map that
/// `m0.insert(&k, v1)` can leave behind, `m2` any that `m1.insert(&k, v2)`
/// can.
pub proof fn lemma_insert_overwrites<K: PartialEq, T>(
    m0: FastMap<K, T>,
    m1: FastMap<K, T>,
    m2: FastMap<K, T>,
    k: K,
    v1: T,
    v2: T,
)
    requires
        is_declared(m0.keys(), k),
        m1.keys() == m0.keys(),
        m1.slots() == m0.slots_after_insert(k, v1),
        m2.keys() == m1.keys(),
        m2.slots() == m1.slots_after_insert(k, v2),
    ensures
        m1.lookup(k) == Ok::<Option<T>, Error>(Some(v1)),
        m2.lookup(k) == Ok::<Option<T>, Error>(Some(v2)),
{
    lemma_slot_of(m0.keys(), k);
}

/// Removing a declared key `k` after storing `v` under it hands back `v`
/// and leaves its slot vacant, so a lookup of `k` finds nothing: `m1` is
/// any map that `m0.insert(&k, v)` can leave behind, `m2` any that
/// `m1.remove(&k)` can.
pub proof fn lemma_insert_then_remove<K: PartialEq, T>(
    m0: FastMap<K, T>,
    m1: FastMap<K, T>,
    m2: FastMap<K, T>,
    k: K,
    v: T,
)
    requires
        is_declared(m0.keys(), k),
        m1.keys() == m0.keys(),
        m1.slots() == m0.slots_after_insert(k, v),
        m2.keys() == m1.keys(),
        m2.slots() == m1.slots_after_remove(k),
    ensures
        m1.lookup(k) == Ok::<Option<T>, Error>(Some(v)),
        m2.slots()[m2.slot(k)->0 as int] is None,
        m2.lookup(k) == Ok::<Option<T>, Error>(None),
{
    lemma_slot_of(m0.keys(), k);
}

/// What `values()` yields is exactly the values of the occupied slots, in
/// slot (declaration) order; so its length is the number of occupied slots,
/// at most the number of declared keys whatever the capacity.
pub proof fn lemma_values_are_occupied_slots<K: PartialEq, T>(m: FastMap<K, T>)
    ensures
        occupied(m.slots()) == m.slots().filter(|o: Option<T>| o is Some).map_values(
            |o: Option<T>| o->0,
        ),
        occupied(m.slots()).len() == m.slots().filter(|o: Option<T>| o is Some).len(),
        occupied(m.slots()).len() <= m.keys().len(),
{
    lemma_occupied_is_filter(m.slots());
    m.slots().lemma_filter_len(|o: Option<T>| o is Some);
}

/// `occupied` keeps the occupied entries, in order, and unwraps them.
pub proof fn lemma_occupied_is_filter<T>(s: Seq<Option<T>>)
    ensures
        occupied(s) == s.filter(|o: Option<T>| o is Some).map_values(|o: Option<T>| o->0),
    decreases s.len(),
{
    let p = |o: Option<T>| o is Some;
    let f = |o: Option<T>| o->0;
    if s.len() == 0 {
        assert(s.filter(p) =~= Seq::<Option<T>>::empty()) by {
            reveal(Seq::filter);
        }
        assert(s.filter(p).map_values(f) =~= Seq::<T>::empty());
    } else {
        let rest = s.drop_first();
        lemma_occupied_is_filter(rest);
        assert(s =~= seq![s[0]] + rest);
        rest.lemma_filter_prepend(s[0], p);
        let head = if p(s[0]) {
            seq![s[0]]
        } else {
            Seq::empty()
        };
        assert((head + rest.filter(p)).map_values(f) =~= head.map_values(f) + rest.filter(
            p,
        ).map_values(f));
        assert(occupied(s) =~= s.filter(p).map_values(f));
    }
}

/// An undeclared key addresses no slot: a strict lookup reports
/// `KeyNotFound`, updates leave every slot as it was, and the easy mode
/// finds nothing.
pub proof fn lemma_undeclared_key<K: PartialEq, T>(m: FastMap<K, T>, k: K, v: T)
    requires
        !is_declared(m.keys(), k),
    ensures
        m.lookup(k) == Err::<Option<T>, Error>(Error::KeyNotFound),
        m.slots_after_insert(k, v) == m.slots(),
        m.slots_after_remove(k) == m.slots(),
        or_none(m.lookup(k)) is None,
{
    lemma_slot_of(m.keys(), k);
}

} // verus!
