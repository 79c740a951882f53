//! The progress channel: a bounded, best-effort queue of snapshots.
//!
//! A producer only ever offers a snapshot without blocking: a full queue
//! drops the snapshot, it is never queued later or retried, and the
//! producer's own work is unaffected either way. A consumer takes
//! snapshots from the front, oldest first.

use vstd::prelude::*;

verus! {

/// What a bounded queue holds after one snapshot is offered to it: the
/// snapshot is appended when there is room, dropped otherwise.
pub open spec fn offered<T>(queue: Seq<T>, capacity: nat, v: T) -> Seq<T> {
    if queue.len() < capacity {
        queue.push(v)
    } else {
        queue
    }
}

/// What a bounded queue holds after a whole sequence of snapshots is
/// offered to it in order.
pub open spec fn offered_all<T>(queue: Seq<T>, capacity: nat, vs: Seq<T>) -> Seq<T>
    decreases vs.len(),
{
    if vs.len() == 0 {
        queue
    } else {
        offered(offered_all(queue, capacity, vs.drop_last()), capacity, vs.last())
    }
}

/// A bounded queue of progress snapshots with non-blocking send.
pub struct ProgressQueue<T> {
    capacity: usize,
    items: Vec<T>,
}

impl<T> ProgressQueue<T> {
    /// The snapshots currently queued, oldest first.
    pub closed spec fn view(&self) -> Seq<T> {
        self.items@
    }

    /// The fixed bound on how many snapshots the queue holds at once.
    pub closed spec fn spec_capacity(&self) -> nat {
        self.capacity as nat
    }

    /// The queue never holds more than its capacity.
    pub open spec fn wf(&self) -> bool {
        self@.len() <= self.spec_capacity()
    }

    pub fn new(capacity: usize) -> (r: Self)
        ensures
            r.wf(),
            r@ == Seq::<T>::empty(),
            r.spec_capacity() == capacity as nat,
    {
        ProgressQueue { capacity, items: Vec::new() }
    }

    pub fn capacity(&self) -> (r: usize)
        ensures
            r as nat == self.spec_capacity(),
    {
        self.capacity
    }

    pub fn len(&self) -> (r: usize)
        ensures
            r as nat == self@.len(),
    {
        self.items.len()
    }

    /// Offer one snapshot without blocking. Returns whether it was
    /// accepted; a full queue drops it and the queue is unchanged.
    pub fn try_send(&mut self, v: T) -> (accepted: bool)
        requires
            old(self).wf(),
        ensures
            final(self).wf(),
            final(self).spec_capacity() == old(self).spec_capacity(),
            accepted == (old(self)@.len() < old(self).spec_capacity()),
            final(self)@ == offered(old(self)@, old(self).spec_capacity(), v),
    {
        if self.items.len() < self.capacity {
            self.items.push(v);
            true
        } else {
            false
        }
    }

    /// Take the oldest queued snapshot, if any.
    pub fn try_recv(&mut self) -> (r: Option<T>)
        ensures
            final(self).spec_capacity() == old(self).spec_capacity(),
            old(self)@.len() == 0 ==> r is None && final(self)@ == old(self)@,
            old(self)@.len() > 0 ==> (r matches Some(v) && v == old(self)@[0] && final(self)@
                == old(self)@.drop_first()),
            old(self).wf() ==> final(self).wf(),
    {
        if self.items.len() == 0 {
            None
        } else {
            let v = self.items.remove(0);
            proof {
                assert(self.items@ =~= old(self)@.drop_first());
            }
            Some(v)
        }
    }
}

/// Law: however small the sink — even one that can accept nothing — what
/// is delivered is a prefix of the snapshots offered, in order and without
/// duplication; the producer's own snapshot sequence does not depend on
/// the sink at all, since `offered_all` leaves `vs` untouched.
pub proof fn lemma_delivery_is_prefix<T>(capacity: nat, vs: Seq<T>)
    ensures
        offered_all(Seq::<T>::empty(), capacity, vs) == vs.take(
            if vs.len() <= capacity {
                vs.len() as int
            } else {
                capacity as int
            },
        ),
    decreases vs.len(),
{
    if vs.len() == 0 {
        assert(offered_all(Seq::<T>::empty(), capacity, vs) =~= vs.take(0));
    } else {
        lemma_delivery_is_prefix(capacity, vs.drop_last());
        let n = vs.len() as int;
        let prev = offered_all(Seq::<T>::empty(), capacity, vs.drop_last());
        if (n - 1) as nat <= capacity {
            assert(vs.drop_last().take(n - 1) =~= vs.take(n - 1));
            if n as nat <= capacity {
                assert(offered(prev, capacity, vs.last()) =~= vs.take(n));
            } else {
                assert(offered(prev, capacity, vs.last()) =~= vs.take(capacity as int));
            }
        } else {
            assert(vs.drop_last().take(capacity as int) =~= vs.take(capacity as int));
        }
    }
}

} // verus!
