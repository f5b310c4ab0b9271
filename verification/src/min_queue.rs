use vstd::prelude::*;

use crate::min_heap_item::MinHeapItem;

verus! {

/// A min-priority queue over `MinHeapItem`s: `peek_min` and `pop_min`
/// always yield an entry of smallest priority. The view is the sequence of
/// entries in insertion order; which of several equal-priority entries
/// leaves first is not promised.
#[derive(Debug)]
pub struct MinQueue<T> {
    items: Vec<MinHeapItem<T>>,
}

impl<T> MinQueue<T> {
    pub closed spec fn view(&self) -> Seq<MinHeapItem<T>> {
        self.items@
    }

    /// An empty queue.
    pub fn new() -> (r: Self)
        ensures
            r@ == Seq::<MinHeapItem<T>>::empty(),
    {
        MinQueue { items: Vec::new() }
    }

    /// How many entries the queue holds.
    pub fn len(&self) -> (r: usize)
        ensures
            r == self@.len(),
    {
        self.items.len()
    }

    /// Whether the queue holds no entry.
    pub fn is_empty(&self) -> (r: bool)
        ensures
            r == (self@.len() == 0),
    {
        self.items.len() == 0
    }

    /// The entry at position `i`, in insertion order.
    pub fn get(&self, i: usize) -> (r: &MinHeapItem<T>)
        requires
            i < self@.len(),
        ensures
            *r == self@[i as int],
    {
        &self.items[i]
    }

    /// Adds an entry.
    pub fn push(&mut self, item: MinHeapItem<T>)
        ensures
            final(self)@ == old(self)@.push(item),
    {
        self.items.push(item);
    }

    /// The index of an entry of smallest priority, for a non-empty queue.
    fn min_index(&self) -> (r: usize)
        requires
            self@.len() > 0,
        ensures
            r < self@.len(),
            forall|j: int| 0 <= j < self@.len() ==> self@[r as int].priority <= self@[j].priority,
    {
        let n = self.items.len();
        let mut best: usize = 0;
        let mut i: usize = 1;
        while i < n
            invariant
                n == self@.len(),
                best < n,
                i <= n,
                forall|j: int| 0 <= j < i ==> self@[best as int].priority <= self@[j].priority,
            decreases n - i,
        {
            if self.items[i].priority < self.items[best].priority {
                best = i;
            }
            i += 1;
        }
        best
    }

    /// A reference to an entry of smallest priority, or `None` for an empty
    /// queue.
    pub fn peek_min(&self) -> (r: Option<&MinHeapItem<T>>)
        ensures
            (match r {
                None => self@.len() == 0,
                Some(m) => {
                    &&& exists|i: int| 0 <= i < self@.len() && self@[i] == *m
                    &&& forall|j: int| 0 <= j < self@.len() ==> m.priority <= self@[j].priority
                },
            }),
    {
        if self.items.len() == 0 {
            None
        } else {
            let i = self.min_index();
            Some(&self.items[i])
        }
    }

    /// Removes and returns an entry of smallest priority, or `None` for an
    /// empty queue.
    pub fn pop_min(&mut self) -> (r: Option<MinHeapItem<T>>)
        ensures
            (match r {
                None => old(self)@.len() == 0 && final(self)@ == old(self)@,
                Some(m) => {
                    &&& exists|i: int|
                        0 <= i < old(self)@.len() && old(self)@[i] == m && final(self)@ == old(
                            self,
                        )@.remove(i)
                    &&& forall|j: int| 0 <= j < old(self)@.len() ==> m.priority <= old(self)@[j].priority
                },
            }),
    {
        if self.items.len() == 0 {
            None
        } else {
            let i = self.min_index();
            Some(self.items.remove(i))
        }
    }

    /// Removes every entry at once, in insertion order, leaving the queue
    /// empty.
    pub fn take_all(&mut self) -> (r: Vec<MinHeapItem<T>>)
        ensures
            r@ == old(self)@,
            final(self)@ == Seq::<MinHeapItem<T>>::empty(),
    {
        let mut out: Vec<MinHeapItem<T>> = Vec::new();
        core::mem::swap(&mut self.items, &mut out);
        out
    }
}

} // verus!
