//! A bounded buffer for captured records.
//!
//! The newest `capacity` items survive and older ones are evicted. Evictions are
//! counted, so that a view can say how much it has dropped.

use std::collections::vec_deque::Iter;
use std::collections::VecDeque;
use vstd::prelude::*;

verus! {

/// Default capacity: roughly a minute of a busy log flood.
pub const DEFAULT_CAPACITY: usize = 100_000;

/// Counters describing a ring's occupancy.
#[derive(Debug, Clone, Copy, PartialEq, Eq, Structural)]
pub struct RingStats {
    /// Items currently retained.
    pub len: usize,
    /// Maximum items retained.
    pub capacity: usize,
    /// Items ever accepted.
    pub total_pushed: u64,
    /// Items evicted to make room.
    pub total_dropped: u64,
}

/// A fixed-capacity first-in first-out buffer.
#[derive(Debug, Clone)]
#[verifier::reject_recursive_types(T)]
pub struct RingBuffer<T> {
    items: VecDeque<T>,
    capacity: usize,
    total_pushed: u64,
    total_dropped: u64,
}

/// What a ring holds and has counted.
#[verifier::ext_equal]
pub struct RingView<T> {
    /// The retained items, oldest first.
    pub items: Seq<T>,
    pub capacity: nat,
    pub total_pushed: nat,
    pub total_dropped: nat,
}

/// A counter that stays at the largest 64-bit number once it gets there.
pub open spec fn saturating(n: nat) -> nat {
    if n <= u64::MAX {
        n
    } else {
        u64::MAX as nat
    }
}

impl<T> RingView<T> {
    /// A ring without items that has counted nothing.
    pub open spec fn fresh(capacity: nat) -> Self {
        RingView { items: seq![], capacity, total_pushed: 0, total_dropped: 0 }
    }

    /// There is room for an item, and there are no more items than room.
    pub open spec fn wf(self) -> bool {
        &&& 1 <= self.capacity
        &&& self.items.len() <= self.capacity
    }

    pub open spec fn full(self) -> bool {
        self.items.len() >= self.capacity
    }

    /// The ring after `item` is appended and, where there is no room, the oldest
    /// item evicted.
    pub open spec fn push(self, item: T) -> Self {
        if self.full() {
            RingView {
                items: self.items.skip(1).push(item),
                capacity: self.capacity,
                total_pushed: saturating(self.total_pushed + 1),
                total_dropped: saturating(self.total_dropped + 1),
            }
        } else {
            RingView {
                items: self.items.push(item),
                capacity: self.capacity,
                total_pushed: saturating(self.total_pushed + 1),
                total_dropped: self.total_dropped,
            }
        }
    }

    /// The ring after every item of `items` is appended in order.
    pub open spec fn push_all(self, items: Seq<T>) -> Self
        decreases items.len(),
    {
        if items.len() == 0 {
            self
        } else {
            self.push_all(items.drop_last()).push(items.last())
        }
    }
}

impl<T> View for RingBuffer<T> {
    type V = RingView<T>;

    closed spec fn view(&self) -> RingView<T> {
        RingView {
            items: self.items@,
            capacity: self.capacity as nat,
            total_pushed: self.total_pushed as nat,
            total_dropped: self.total_dropped as nat,
        }
    }
}

impl<T> RingBuffer<T> {
    /// Creates a ring holding at most `capacity` items; zero counts as one.
    pub fn new(capacity: usize) -> (r: Self)
        ensures
            r@ == RingView::<T>::fresh(if capacity == 0 { 1 } else { capacity as nat }),
            r@.wf(),
    {
        let capacity: usize = if capacity == 0 { 1 } else { capacity };
        RingBuffer { items: VecDeque::new(), capacity, total_pushed: 0, total_dropped: 0 }
    }

    /// Maximum number of retained items.
    pub fn capacity(&self) -> (r: usize)
        ensures
            r as nat == self@.capacity,
    {
        self.capacity
    }

    /// Number of retained items.
    pub fn len(&self) -> (r: usize)
        ensures
            r as nat == self@.items.len(),
    {
        self.items.len()
    }

    /// True when nothing has been retained.
    pub fn is_empty(&self) -> (r: bool)
        ensures
            r == (self@.items.len() == 0),
    {
        self.items.len() == 0
    }

    /// Appends `item`, evicting the oldest entry when full.
    ///
    /// Returns `true` when an eviction happened, so callers can surface drops.
    pub fn push(&mut self, item: T) -> (evicted: bool)
        requires
            old(self)@.wf(),
        ensures
            final(self)@ == old(self)@.push(item),
            final(self)@.wf(),
            evicted == old(self)@.full(),
    {
        let evicted: bool = self.items.len() == self.capacity;
        if evicted {
            let ghost before = self.items@;
            let _oldest: Option<T> = self.items.pop_front();
            assert(self.items@ =~= before.skip(1));
            self.total_dropped = self.total_dropped.saturating_add(1);
        }
        self.items.push_back(item);
        self.total_pushed = self.total_pushed.saturating_add(1);
        evicted
    }

    /// Drops every retained item, preserving lifetime counters.
    pub fn clear(&mut self)
        ensures
            final(self)@ == (RingView { items: seq![], ..old(self)@ }),
    {
        self.items.clear();
        assert(self.items@ =~= seq![]);
    }

    /// The most recently pushed item.
    pub fn last(&self) -> (r: Option<&T>)
        ensures
            match r {
                Some(item) => self@.items.len() > 0 && *item == self@.items.last(),
                None => self@.items.len() == 0,
            },
    {
        if self.items.len() == 0 {
            None
        } else {
            Some(&self.items[self.items.len() - 1])
        }
    }

    /// Iterates oldest to newest.
    pub fn iter(&self) -> (r: Iter<'_, T>)
        ensures
            vstd::std_specs::iter::IteratorSpec::remaining(&r) == self@.items.as_ref(),
    {
        self.items.iter()
    }

    /// Clones the retained items, oldest first.
    pub fn snapshot(&self) -> (r: Vec<T>) where T: Clone
        ensures
            r@.len() == self@.items.len(),
            forall|i: int| 0 <= i < r@.len() ==> cloned(self@.items[i], #[trigger] r@[i]),
    {
        let mut r: Vec<T> = Vec::new();
        let mut i: usize = 0;
        while i < self.items.len()
            invariant
                i <= self.items@.len(),
                r@.len() == i,
                forall|j: int| 0 <= j < i ==> cloned(self@.items[j], #[trigger] r@[j]),
            decreases self.items@.len() - i,
        {
            r.push(self.items[i].clone());
            i += 1;
        }
        r
    }

    /// Removes and returns every retained item, oldest first.
    pub fn drain(&mut self) -> (r: Vec<T>)
        ensures
            r@ == old(self)@.items,
            final(self)@ == (RingView { items: seq![], ..old(self)@ }),
    {
        let mut r: Vec<T> = Vec::new();
        assert(r@ + self.items@ =~= self@.items);
        loop
            invariant
                r@ + self.items@ == old(self)@.items,
                self@ == (RingView { items: self.items@, ..old(self)@ }),
            decreases self.items@.len(),
        {
                let ghost before = self.items@;
            let ghost taken = r@;
            match self.items.pop_front() {
                Some(item) => {
                    r.push(item);
                    assert(r@ + self.items@ =~= taken + before);
                }
                None => {
                    assert(self.items@ =~= seq![]);
                    assert(r@ =~= r@ + self.items@);
                    return r;
                }
            }
        }
    }

    /// Current occupancy and lifetime counters.
    pub fn stats(&self) -> (r: RingStats)
        ensures
            r.len as nat == self@.items.len(),
            r.capacity as nat == self@.capacity,
            r.total_pushed as nat == self@.total_pushed,
            r.total_dropped as nat == self@.total_dropped,
    {
        RingStats {
            len: self.items.len(),
            capacity: self.capacity,
            total_pushed: self.total_pushed,
            total_dropped: self.total_dropped,
        }
    }
}

impl<T> Default for RingBuffer<T> {
    fn default() -> (r: Self)
        ensures
            r@ == RingView::<T>::fresh(DEFAULT_CAPACITY as nat),
    {
        RingBuffer::new(DEFAULT_CAPACITY)
    }
}

/// A ring that starts empty keeps exactly the newest `capacity` of the items it
/// was given, in the order they came, and its counters say how many it was given
/// and how many of those it no longer holds.
pub proof fn law_ring_keeps_the_newest<T>(capacity: nat, items: Seq<T>)
    requires
        capacity >= 1,
    ensures
        ({
            let ring = RingView::<T>::fresh(capacity).push_all(items);
            let kept = if items.len() <= capacity { items.len() } else { capacity };
            &&& ring.items == items.skip(items.len() - kept)
            &&& ring.capacity == capacity
            &&& ring.total_pushed == saturating(items.len())
            &&& ring.total_dropped == saturating((items.len() - kept) as nat)
        }),
    decreases items.len(),
{
    if items.len() > 0 {
        let init = items.drop_last();
        law_ring_keeps_the_newest(capacity, init);
        let ring = RingView::<T>::fresh(capacity).push_all(items);
        let kept = if items.len() <= capacity { items.len() } else { capacity };
        assert(ring.items =~= items.skip(items.len() - kept));
    } else {
        assert(RingView::<T>::fresh(capacity).items =~= items.skip(0));
    }
}

} // verus!
