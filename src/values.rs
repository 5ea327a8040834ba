use vstd::prelude::*;
use crate::container::deref_opt;

verus! {

/// The values of the occupied entries of `s`, in order; vacant entries are
/// skipped.
pub open spec fn occupied<T>(s: Seq<Option<T>>) -> Seq<T>
    decreases s.len(),
{
    if s.len() == 0 {
        Seq::empty()
    } else {
        let rest = occupied(s.drop_first());
        match s[0] {
            Some(v) => seq![v] + rest,
            None => rest,
        }
    }
}

/// Reads each optional shared reference of `s` as the value it points to.
pub open spec fn derefs<T>(s: Seq<Option<&T>>) -> Seq<Option<T>> {
    s.map_values(|o: Option<&T>| deref_opt(o))
}

/// Reads each shared reference of `s` as the value it points to.
pub open spec fn seq_deref<T>(s: Seq<&T>) -> Seq<T> {
    s.map_values(|v: &T| *v)
}

/// Peeling entry `i` off the front of `s.skip(i)`.
pub proof fn lemma_occupied_skip<T>(s: Seq<Option<T>>, i: int)
    requires
        0 <= i < s.len(),
    ensures
        occupied(s.skip(i)) == match s[i] {
            Some(v) => seq![v] + occupied(s.skip(i + 1)),
            None => occupied(s.skip(i + 1)),
        },
{
    assert(s.skip(i).drop_first() =~= s.skip(i + 1));
}

/// Single-pass sequence of the values held by a row of slots, in slot
/// order, skipping vacant slots. The values stay borrowed from their owner.
pub struct Values<'a, T> {
    items: Vec<Option<&'a T>>,
    next: usize,
}

impl<'a, T> Values<'a, T> {
    #[verifier::type_invariant]
    spec fn cursor_in_range(&self) -> bool {
        self.next <= self.items@.len()
    }

    /// The values that are still to come, in order.
    pub closed spec fn remaining(&self) -> Seq<T> {
        occupied(derefs(self.items@).skip(self.next as int))
    }

    /// A sequence over the occupied entries of `t`.
    pub fn new(t: Vec<Option<&'a T>>) -> (r: Self)
        ensures
            r.remaining() == occupied(derefs(t@)),
    {
        let r = Values { items: t, next: 0 };
        assert(derefs(r.items@).skip(0) =~= derefs(r.items@));
        r
    }

    /// The next value, or `None` once every value has been handed out.
    pub fn next(&mut self) -> (r: Option<&'a T>)
        ensures
            match r {
                Some(v) => old(self).remaining() == seq![*v] + final(self).remaining(),
                None => old(self).remaining().len() == 0 && final(self).remaining().len() == 0,
            },
    {
        proof {
            use_type_invariant(&*self);
        }
        let ghost start = self.remaining();
        let ghost s = derefs(self.items@);
        while self.next < self.items.len()
            invariant
                derefs(self.items@) == s,
                self.next <= s.len(),
                self.remaining() == start,
                start == old(self).remaining(),
            decreases s.len() - self.next,
        {
            let item = self.items[self.next];
            proof {
                assert(s[self.next as int] == deref_opt(item));
                lemma_occupied_skip(s, self.next as int);
            }
            self.next = self.next + 1;
            match item {
                Some(v) => {
                    return Some(v);
                },
                None => {},
            }
        }
        assert(s.skip(self.next as int) =~= Seq::<Option<T>>::empty());
        None
    }

    /// Collects the remaining values, in order.
    pub fn into_vec(self) -> (r: Vec<&'a T>)
        ensures
            seq_deref(r@) == self.remaining(),
    {
        let mut it = self;
        let mut out: Vec<&'a T> = Vec::new();
        let ghost total = it.remaining();
        loop
            invariant
                seq_deref(out@) + it.remaining() == total,
                total == self.remaining(),
            decreases it.remaining().len(),
        {
            match it.next() {
                Some(v) => {
                    proof {
                        assert(seq_deref(out@.push(v)) =~= seq_deref(out@).push(*v));
                    }
                    out.push(v);
                    assert(seq_deref(out@) + it.remaining() =~= total);
                },
                None => {
                    assert(seq_deref(out@) + it.remaining() =~= seq_deref(out@));
                    return out;
                },
            }
        }
    }
}

} // verus!
