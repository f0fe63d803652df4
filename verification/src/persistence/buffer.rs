//! Buffering of snapshots before they are written to disk.

use vstd::prelude::*;

verus! {

/// Holds snapshots until `capacity` of them are waiting.
pub struct WriteBuffer<T> {
    items: Vec<T>,
    capacity: usize,
}

impl<T> WriteBuffer<T> {
    pub closed spec fn items(self) -> Seq<T> {
        self.items@
    }

    pub closed spec fn capacity(self) -> nat {
        self.capacity as nat
    }

    pub fn new(capacity: usize) -> (b: Self)
        ensures
            b.items() == Seq::<T>::empty(),
            b.capacity() == capacity,
    {
        WriteBuffer { items: Vec::new(), capacity }
    }

    /// Adds an item; returns whether the buffer is now due to be flushed,
    /// that is whether it holds at least `capacity` items.
    pub fn push(&mut self, item: T) -> (flush_due: bool)
        ensures
            final(self).items() == old(self).items().push(item),
            final(self).capacity() == old(self).capacity(),
            flush_due == (final(self).items().len() >= final(self).capacity()),
    {
        self.items.push(item);
        self.items.len() >= self.capacity
    }

    pub fn len(&self) -> (n: usize)
        ensures
            n == self.items().len(),
    {
        self.items.len()
    }

    pub fn is_empty(&self) -> (e: bool)
        ensures
            e == (self.items().len() == 0),
    {
        self.items.len() == 0
    }

    /// The waiting items, oldest first.
    pub fn items_ref(&self) -> (v: &Vec<T>)
        ensures
            v@ == self.items(),
    {
        &self.items
    }

    /// Empties the buffer after a successful flush.
    pub fn clear(&mut self)
        ensures
            final(self).items() == Seq::<T>::empty(),
            final(self).capacity() == old(self).capacity(),
    {
        self.items = Vec::new();
    }
}

} // verus!
