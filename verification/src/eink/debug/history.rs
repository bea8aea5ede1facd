//! Bounded history of samples for the debug graphs: the newest samples in
//! arrival order, the oldest dropped once the bound is passed.
use vstd::prelude::*;
use std::collections::VecDeque;

verus! {

/// Samples kept by the power graph: five minutes at one sample a second.
pub const MAX_SAMPLES: usize = 300;

/// What a history bounded by `cap` holds after `item` arrives: the item
/// appended, and the oldest dropped when that passes the bound.
pub open spec fn pushed<T>(items: Seq<T>, item: T, cap: nat) -> Seq<T> {
    let grown = items.push(item);
    if grown.len() > cap { grown.drop_first() } else { grown }
}

/// A ring of at most `cap` samples, oldest first.
pub struct History<T> {
    samples: VecDeque<T>,
    cap: usize,
}

impl<T> View for History<T> {
    type V = Seq<T>;

    closed spec fn view(&self) -> Seq<T> {
        self.samples@
    }
}

impl<T> History<T> {
    /// Most samples the history keeps.
    pub closed spec fn capacity(&self) -> nat {
        self.cap as nat
    }

    /// The history never holds more than its bound.
    pub open spec fn wf(&self) -> bool {
        self@.len() <= self.capacity()
    }

    /// Empty history keeping at most `cap` samples.
    pub fn with_cap(cap: usize) -> (r: Self)
        ensures
            r@ == Seq::<T>::empty(),
            r.capacity() == cap,
            r.wf(),
    {
        History { samples: VecDeque::with_capacity(cap), cap }
    }

    /// Empty history bounded by `MAX_SAMPLES`.
    pub fn new() -> (r: Self)
        ensures
            r@ == Seq::<T>::empty(),
            r.capacity() == MAX_SAMPLES,
            r.wf(),
    {
        Self::with_cap(MAX_SAMPLES)
    }

    /// Appends a sample, dropping the oldest when the bound is passed.
    pub fn push(&mut self, item: T)
        requires
            old(self).wf(),
        ensures
            final(self)@ == pushed(old(self)@, item, old(self).capacity()),
            final(self).capacity() == old(self).capacity(),
            final(self).wf(),
    {
        self.samples.push_back(item);
        if self.samples.len() > self.cap {
            let _ = self.samples.pop_front();
        }
        proof {
            assert(self@ =~= pushed(old(self)@, item, old(self).capacity()));
        }
    }

    /// Number of samples held.
    pub fn len(&self) -> (r: usize)
        ensures
            r == self@.len(),
    {
        self.samples.len()
    }

    /// The samples, oldest first.
    pub fn items(&self) -> (r: &VecDeque<T>)
        ensures
            r@ == self@,
    {
        &self.samples
    }
}

/// A bounded history keeps the newest samples: after a push it holds the
/// last `min(len + 1, cap)` of the old samples followed by the new one, and
/// never more than its bound.
pub proof fn lemma_pushed_keeps_newest<T>(items: Seq<T>, item: T, cap: nat)
    requires
        items.len() <= cap,
        cap >= 1,
    ensures
        pushed(items, item, cap).len() <= cap,
        pushed(items, item, cap).last() == item,
        pushed(items, item, cap).drop_last() == items.subrange(
            items.len() + 1 - pushed(items, item, cap).len(),
            items.len() as int,
        ),
{
    let r = pushed(items, item, cap);
    assert(r.drop_last() =~= items.subrange(items.len() + 1 - r.len(), items.len() as int));
}

} // verus!
