use std::marker::PhantomData;
use vstd::prelude::*;

verus! {

/// Reads an optional shared reference as the value it points to.
pub open spec fn deref_opt<T>(o: Option<&T>) -> Option<T> {
    match o {
        Some(v) => Some(*v),
        None => None,
    }
}

/// Fixed-capacity storage: an ordered row of slots, each either vacant
/// (`None`) or occupied (`Some`). Slots are addressed by position only; `K`
/// is the key type of the map built on it, which is never stored.
pub struct Container<K, T> {
    slots: Vec<Option<T>>,
    key: PhantomData<K>,
}

impl<K, T> View for Container<K, T> {
    type V = Seq<Option<T>>;

    closed spec fn view(&self) -> Seq<Option<T>> {
        self.slots@
    }
}

impl<K, T> Container<K, T> {
    /// A container with `capacity` slots, all vacant.
    pub fn new(capacity: usize) -> (r: Self)
        ensures
            r@.len() == capacity,
            forall|i: int| 0 <= i < capacity ==> #[trigger] r@[i] is None,
    {
        let mut slots: Vec<Option<T>> = Vec::with_capacity(capacity);
        let mut n: usize = 0;
        while n < capacity
            invariant
                n <= capacity,
                slots@.len() == n,
                forall|i: int| 0 <= i < n ==> #[trigger] slots@[i] is None,
            decreases capacity - n,
        {
            slots.push(None);
            n = n + 1;
        }
        Container { slots, key: PhantomData }
    }

    /// Number of slots.
    pub fn capacity(&self) -> (r: usize)
        ensures
            r == self@.len(),
    {
        self.slots.len()
    }

    /// The content of slot `i`, borrowed.
    pub fn slot(&self, i: usize) -> (r: Option<&T>)
        requires
            i < self@.len(),
        ensures
            deref_opt(r) == self@[i as int],
    {
        self.slots[i].as_ref()
    }

    /// Exclusive access to the value in slot `i`, if it is occupied.
    pub fn slot_mut(&mut self, i: usize) -> (r: Option<&mut T>)
        requires
            i < old(self)@.len(),
        ensures
            match old(self)@[i as int] {
                None => r is None && final(self)@ == old(self)@,
                Some(v) => r is Some && *r->0 == v && final(self)@ == old(self)@.update(
                    i as int,
                    Some(*final(r->0)),
                ),
            },
        no_unwind
    {
        match &mut self.slots[i] {
            Some(v) => Some(v),
            None => None,
        }
    }

    /// Puts `val` into slot `i` and hands back what the slot held.
    pub fn replace(&mut self, i: usize, val: T) -> (r: Option<T>)
        requires
            i < old(self)@.len(),
        ensures
            r == old(self)@[i as int],
            final(self)@ == old(self)@.update(i as int, Some(val)),
        no_unwind
    {
        let mut cell = Some(val);
        std::mem::swap(&mut cell, &mut self.slots[i]);
        cell
    }

    /// Empties slot `i` and hands back what it held.
    pub fn take(&mut self, i: usize) -> (r: Option<T>)
        requires
            i < old(self)@.len(),
        ensures
            r == old(self)@[i as int],
            final(self)@ == old(self)@.update(i as int, None),
        no_unwind
    {
        let mut cell = None;
        std::mem::swap(&mut cell, &mut self.slots[i]);
        cell
    }
}

} // verus!
