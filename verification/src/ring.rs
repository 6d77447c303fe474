//! Fixed-capacity ring buffer for raw RF observations.
use vstd::prelude::*;
use std::collections::VecDeque;

verus! {

/// What one `push` leaves: the item is appended, and the oldest items are
/// dropped until the buffer holds no more than its capacity (so a buffer of
/// capacity 0 keeps nothing).
pub open spec fn ring_push<T>(items: Seq<T>, capacity: nat, item: T) -> Seq<T> {
    newest(items.push(item), capacity)
}

/// The newest `n` items of `s`.
pub open spec fn newest<T>(s: Seq<T>, n: nat) -> Seq<T> {
    if s.len() > n {
        s.skip(s.len() - n)
    } else {
        s
    }
}

/// Fixed-capacity ring buffer. Oldest entries are dropped when full.
pub struct RingBuffer<T> {
    capacity: usize,
    items: VecDeque<T>,
}

impl<T> View for RingBuffer<T> {
    type V = Seq<T>;

    closed spec fn view(&self) -> Seq<T> {
        self.items@
    }
}

impl<T> RingBuffer<T> {
    /// The capacity the buffer was made with.
    pub closed spec fn spec_capacity(&self) -> nat {
        self.capacity as nat
    }

    pub fn new(capacity: usize) -> (b: Self)
        ensures
            b@ == Seq::<T>::empty(),
            b.spec_capacity() == capacity,
    {
        RingBuffer { capacity, items: VecDeque::with_capacity(capacity) }
    }

    pub fn push(&mut self, item: T)
        ensures
            final(self)@ == ring_push(old(self)@, old(self).spec_capacity(), item),
            final(self)@.len() <= final(self).spec_capacity(),
            final(self).spec_capacity() == old(self).spec_capacity(),
    {
        self.items.push_back(item);
        let ghost all = self.items@;
        let ghost mut dropped: int = 0;
        while self.items.len() > self.capacity
            invariant
                self.capacity == old(self).capacity,
                all == old(self).items@.push(item),
                0 <= dropped <= all.len(),
                self.items@ == all.skip(dropped),
                self.items.len() < self.capacity ==> dropped == 0,
            decreases self.items.len(),
        {
            let _ = self.items.pop_front();
            proof {
                dropped = dropped + 1;
                assert(self.items@ =~= all.skip(dropped));
            }
        }
        proof {
            if dropped == 0 {
                assert(all.skip(0) =~= all);
            }
        }
    }

    /// Removes and returns every item, oldest first.
    pub fn drain_all(&mut self) -> (items: Vec<T>)
        ensures
            items@ == old(self)@,
            final(self)@ == Seq::<T>::empty(),
            final(self).spec_capacity() == old(self).spec_capacity(),
    {
        let mut out: Vec<T> = Vec::new();
        let ghost all = self.items@;
        while self.items.len() > 0
            invariant
                self.capacity == old(self).capacity,
                all == old(self).items@,
                out@ + self.items@ == all,
            decreases self.items.len(),
        {
            let ghost before = self.items@;
            match self.items.pop_front() {
                Some(x) => {
                    out.push(x);
                    assert(out@ + self.items@ =~= all);
                },
                None => {},
            }
        }
        assert(out@ =~= all);
        out
    }

    pub fn len(&self) -> (n: usize)
        ensures
            n == self@.len(),
    {
        self.items.len()
    }

    pub fn is_empty(&self) -> (b: bool)
        ensures
            b == (self@.len() == 0),
    {
        self.items.len() == 0
    }
}

/// A buffer never holds more than its capacity, and after a push it holds
/// exactly the newest `capacity` items of what it held followed by the
/// pushed item.
pub proof fn ring_push_keeps_newest<T>(items: Seq<T>, capacity: nat, item: T)
    ensures
        ring_push(items, capacity, item) == newest(items.push(item), capacity),
        ring_push(items, capacity, item).len() <= capacity,
{
}

/// Draining gives back exactly the pushed items when the buffer never filled.
pub proof fn ring_push_below_capacity_appends<T>(items: Seq<T>, capacity: nat, item: T)
    requires
        items.len() < capacity,
    ensures
        ring_push(items, capacity, item) == items.push(item),
{
}

/// What pushing each of `pushes` in turn leaves.
pub open spec fn ring_push_all<T>(items: Seq<T>, capacity: nat, pushes: Seq<T>) -> Seq<T>
    decreases pushes.len(),
{
    if pushes.len() == 0 {
        items
    } else {
        ring_push(ring_push_all(items, capacity, pushes.drop_last()), capacity, pushes.last())
    }
}

/// Any number of pushes leaves the newest `capacity` items of what the
/// buffer held followed by what was pushed: from an empty buffer, after `k`
/// pushes it holds `min(k, capacity)` items, the last ones pushed, oldest
/// first.
pub proof fn ring_pushes_keep_newest<T>(items: Seq<T>, capacity: nat, pushes: Seq<T>)
    requires
        items.len() <= capacity,
    ensures
        ring_push_all(items, capacity, pushes) == newest(items + pushes, capacity),
        ring_push_all(items, capacity, pushes).len() == if items.len() + pushes.len() <= capacity {
            items.len() + pushes.len()
        } else {
            capacity
        },
    decreases pushes.len(),
{
    if pushes.len() == 0 {
        assert(items + pushes =~= items);
    } else {
        let p = pushes.drop_last();
        let x = pushes.last();
        ring_pushes_keep_newest(items, capacity, p);
        let all = items + pushes;
        let ap = items + p;
        assert(ap.push(x) =~= all);
        assert(newest(newest(ap, capacity).push(x), capacity) =~= newest(ap.push(x), capacity));
    }
}

} // verus!
