use vstd::prelude::*;

verus! {

/// An entry of the min-priority queue: a payload keyed by a priority.
/// Entries are ordered ascending by priority alone (smallest first); how
/// ties break is left to the queue.
#[derive(Debug)]
pub struct MinHeapItem<T> {
    pub priority: u64,
    pub element: T,
}

} // verus!
