//! A fixed-capacity memory pool: slots are either used or free, the free
//! slots form a chain threaded through the buffer, and acquiring or
//! releasing a slot moves the chain's head.

use vstd::prelude::*;

verus! {

/// One slot: a held value, or a link to the next free slot (the buffer
/// length standing for the chain's end).
pub enum Elem<T> {
    Used(T),
    Free(usize),
}

impl<T> Elem<T> {
    /// The held value; asking a free slot is outside the contract.
    pub fn unwrap_used(&self) -> (r: &T)
        requires
            self is Used,
        ensures
            *r == self->Used_0,
    {
        match self {
            Elem::Used(v) => v,
            Elem::Free(_) => unreached(),
        }
    }

    /// The link to the next free slot; asking a used slot is outside the
    /// contract.
    pub fn unwrap_free(&self) -> (r: usize)
        requires
            self is Free,
        ensures
            r == self->Free_0,
    {
        match self {
            Elem::Used(_) => unreached(),
            Elem::Free(n) => *n,
        }
    }
}

/// A pool of equally typed slots with a free chain.
pub struct MemPool<T> {
    pub buffer: Vec<Elem<T>>,
    pub head: usize,
}

impl<T> MemPool<T> {
    /// The head and every free link is a slot index or the buffer length,
    /// which stands for the chain's end.
    pub open spec fn links_ok(&self) -> bool {
        &&& self.head <= self.buffer@.len()
        &&& forall|i: int|
            0 <= i < self.buffer@.len() && (#[trigger] self.buffer@[i]) is Free
                ==> self.buffer@[i]->Free_0 <= self.buffer@.len()
    }

    /// The chain's head slot is free while any slot remains: what `acquire`
    /// consumes and `release` re-establishes.
    pub open spec fn ready(&self) -> bool {
        self.head < self.buffer@.len() ==> self.buffer@[self.head as int] is Free
    }

    /// A pool of `size` free slots chained in order.
    pub fn new(size: usize) -> (r: Self)
        ensures
            r.links_ok(),
            r.ready(),
            r.buffer@.len() == size,
            r.head == if size == 0 {
                size
            } else {
                0
            },
            forall|i: int| 0 <= i < size ==> (#[trigger] r.buffer@[i]) is Free,
    {
        let mut buffer: Vec<Elem<T>> = Vec::new();
        let mut i: usize = 0;
        while i < size
            invariant
                i <= size,
                buffer@.len() == i,
                forall|k: int|
                    0 <= k < i ==> ((#[trigger] buffer@[k]) matches Elem::Free(n) && n == k + 1),
            decreases size - i,
        {
            buffer.push(Elem::Free(i + 1));
            i = i + 1;
        }
        MemPool { buffer, head: 0 }
    }

    /// Whether no free slot remains.
    pub fn is_empty(&self) -> (r: bool)
        ensures
            r == (self.head == self.buffer@.len()),
    {
        self.head == self.buffer.len()
    }

    /// Takes the free slot at the chain's head for `value` and returns its
    /// index.
    pub fn acquire(&mut self, value: T) -> (r: usize)
        requires
            old(self).links_ok(),
            old(self).ready(),
            old(self).head < old(self).buffer@.len(),
        ensures
            final(self).links_ok(),
            r == old(self).head,
            r < final(self).buffer@.len(),
            final(self).buffer@ == old(self).buffer@.update(r as int, Elem::Used(value)),
            final(self).head == old(self).buffer@[r as int]->Free_0,
    {
        let r = self.head;
        let next = self.buffer[r].unwrap_free();
        self.head = next;
        self.buffer[r] = Elem::Used(value);
        proof {
            assert(self.buffer@ =~= old(self).buffer@.update(r as int, Elem::Used(value)));
        }
        r
    }

    /// Frees the slot at `index`, making it the chain's new head.
    pub fn release(&mut self, index: usize)
        requires
            old(self).links_ok(),
            index < old(self).buffer@.len(),
        ensures
            final(self).links_ok(),
            final(self).ready(),
            final(self).head == index,
            final(self).buffer@ == old(self).buffer@.update(
                index as int,
                Elem::Free(old(self).head),
            ),
    {
        let old_head = self.head;
        self.buffer[index] = Elem::Free(old_head);
        self.head = index;
        proof {
            assert(self.buffer@ =~= old(self).buffer@.update(
                index as int,
                Elem::Free(old(self).head),
            ));
        }
    }
}

} // verus!
