//! Bounded FIFO history buffers.
//!
//! Every monitor keeps its recent readings in a fixed-capacity buffer: a push
//! appends at the back and, when the buffer is full, evicts the oldest entry
//! at the front.

use vstd::prelude::*;

verus! {

/// One bounded push: append `x`, evicting the oldest entry when `s` already
/// holds `cap` elements.
pub open spec fn push_capped<T>(s: Seq<T>, x: T, cap: nat) -> Seq<T> {
    if s.len() < cap {
        s.push(x)
    } else {
        s.drop_first().push(x)
    }
}

/// A fixed-capacity FIFO buffer of readings.
pub struct History<T> {
    items: Vec<T>,
    cap: usize,
}

impl<T> History<T> {
    pub closed spec fn view(&self) -> Seq<T> {
        self.items@
    }

    pub closed spec fn cap_spec(&self) -> nat {
        self.cap as nat
    }

    pub closed spec fn wf(&self) -> bool {
        &&& self.cap >= 1
        &&& self.items@.len() <= self.cap
    }

    pub fn new(cap: usize) -> (r: History<T>)
        requires
            cap >= 1,
        ensures
            r.wf(),
            r.cap_spec() == cap,
            r@ == Seq::<T>::empty(),
    {
        let r = History { items: Vec::new(), cap };
        proof {
            assert(r.items@ =~= Seq::<T>::empty());
        }
        r
    }

    pub fn push(&mut self, x: T)
        requires
            old(self).wf(),
        ensures
            final(self).wf(),
            final(self).cap_spec() == old(self).cap_spec(),
            final(self)@ == push_capped(old(self)@, x, old(self).cap_spec()),
    {
        if self.items.len() == self.cap {
            self.items.remove(0);
            proof {
                assert(self.items@ =~= old(self).items@.drop_first());
            }
        }
        self.items.push(x);
    }

    /// A well-formed buffer never exceeds its capacity.
    pub proof fn lemma_len_within_cap(&self)
        requires
            self.wf(),
        ensures
            self@.len() <= self.cap_spec(),
    {
    }

    pub fn len(&self) -> (r: usize)
        ensures
            r == self@.len(),
    {
        self.items.len()
    }
}

impl<T> History<T> {
    pub fn borrow(&self, i: usize) -> (r: &T)
        requires
            i < self@.len(),
        ensures
            *r == self@[i as int],
    {
        &self.items[i]
    }
}

impl<T: Copy> History<T> {
    pub fn get(&self, i: usize) -> (r: T)
        requires
            i < self@.len(),
        ensures
            r == self@[i as int],
    {
        self.items[i]
    }

    /// A copy of the buffered readings, oldest first.
    pub fn snapshot(&self) -> (r: Vec<T>)
        ensures
            r@ == self@,
    {
        let mut out: Vec<T> = Vec::new();
        let mut i: usize = 0;
        while i < self.items.len()
            invariant
                i <= self.items@.len(),
                out@ == self.items@.subrange(0, i as int),
            decreases self.items@.len() - i,
        {
            out.push(self.items[i]);
            proof {
                assert(out@ =~= self.items@.subrange(0, i + 1 as int));
            }
            i = i + 1;
        }
        proof {
            assert(out@ =~= self.items@);
        }
        out
    }
}

/// The result of pushing every element of `xs` in order.
pub open spec fn push_all<T>(s: Seq<T>, xs: Seq<T>, cap: nat) -> Seq<T>
    decreases xs.len(),
{
    if xs.len() == 0 {
        s
    } else {
        push_all(push_capped(s, xs[0], cap), xs.drop_first(), cap)
    }
}

/// A bounded buffer always holds the most recent readings: after pushing the
/// elements of `xs` onto a well-formed buffer, the contents are the last
/// `cap` elements of the concatenation, in order (all of them if fewer).
pub proof fn lemma_push_all_keeps_suffix<T>(s: Seq<T>, xs: Seq<T>, cap: nat)
    requires
        cap >= 1,
        s.len() <= cap,
    ensures
        push_all(s, xs, cap) =~= if s.len() + xs.len() <= cap {
            s + xs
        } else {
            (s + xs).skip(s.len() + xs.len() - cap)
        },
    decreases xs.len(),
{
    if xs.len() == 0 {
        assert(s + xs =~= s);
    } else {
        let s1 = push_capped(s, xs[0], cap);
        assert(s1.len() <= cap);
        lemma_push_all_keeps_suffix(s1, xs.drop_first(), cap);
        if s.len() < cap {
            assert(s1 + xs.drop_first() =~= s + xs);
        } else {
            assert(s1 + xs.drop_first() =~= (s + xs).skip(1));
        }
    }
}

/// Appending at least `cap` values leaves exactly the last `cap` of them,
/// in order, whatever the buffer held before.
pub proof fn lemma_history_holds_last_cap<T>(s: Seq<T>, xs: Seq<T>, cap: nat)
    requires
        cap >= 1,
        s.len() <= cap,
        xs.len() >= cap,
    ensures
        push_all(s, xs, cap) =~= xs.skip(xs.len() - cap),
        push_all(s, xs, cap).len() == cap,
{
    lemma_push_all_keeps_suffix(s, xs, cap);
    if s.len() + xs.len() > cap {
        assert((s + xs).skip(s.len() + xs.len() - cap) =~= xs.skip(xs.len() - cap));
    } else {
        assert(s.len() == 0 && xs.len() == cap);
        assert(s + xs =~= xs.skip(xs.len() - cap));
    }
}

} // verus!
