//! Cells of a ring.
use vstd::prelude::*;

verus! {

/// A ring cell guarded by a sequence counter. The counter's relation to the
/// cursor that owns the cell decides whether the cell waits for a writer
/// (`seq == c`) or holds a committed payload for a reader (`seq == c + 1`).
pub struct Slot<T> {
    pub seq: usize,
    pub data: Option<T>,
}

impl<T> Slot<T> {
    /// A cell that waits for the write of cursor `index`.
    pub fn new(index: usize) -> (r: Self)
        ensures
            r.seq == index,
            r.data is None,
    {
        Slot { seq: index, data: None }
    }

    /// A cell that waits for the write of cursor `index`, with no payload yet.
    pub fn uninit(index: usize) -> (r: Self)
        ensures
            r.seq == index,
            r.data is None,
    {
        Slot::new(index)
    }
}

/// A ring cell without a counter: it holds the payload last written to it.
/// The slot-lock ring guards each such cell with a lock of its own.
pub struct LockSlot<T> {
    pub data: Option<T>,
}

impl<T> LockSlot<T> {
    pub fn new() -> (r: Self)
        ensures
            r.data is None,
    {
        LockSlot { data: None }
    }
}

} // verus!
