//! The bounded first-in first-out queues that couple the pipeline's stages:
//! a producer that finds one full waits, so a slow stage slows the one
//! before it.
use vstd::prelude::*;
use std::collections::VecDeque;

verus! {

/// How many pending items a fill moves into a queue of `len` items out of
/// `capacity`.
pub open spec fn fill_count(len: nat, pending: nat, capacity: nat) -> int {
    vstd::math::min(pending as int, capacity - len)
}

/// A step of the stage that feeds a batch through a queue: it fills the queue
/// from what is pending, or the consumer takes the oldest item.
pub enum FeedEvent {
    Fill,
    Take,
}

/// The items taken so far, the queue, and the rest of the batch, after one
/// step.
pub open spec fn feed_step<T>(s: (Seq<T>, Seq<T>, Seq<T>), capacity: nat, e: FeedEvent) -> (
    Seq<T>,
    Seq<T>,
    Seq<T>,
) {
    let (taken, q, pending) = s;
    match e {
        FeedEvent::Fill => {
            let k = fill_count(q.len(), pending.len(), capacity);
            (taken, q + pending.take(k), pending.skip(k))
        },
        FeedEvent::Take => if q.len() > 0 {
            (taken.push(q[0]), q.drop_first(), pending)
        } else {
            s
        },
    }
}

/// The state after a run of steps that starts with an empty queue and the
/// whole batch pending.
pub open spec fn feed_all<T>(batch: Seq<T>, capacity: nat, es: Seq<FeedEvent>) -> (
    Seq<T>,
    Seq<T>,
    Seq<T>,
)
    decreases es.len(),
{
    if es.len() == 0 {
        (Seq::empty(), Seq::empty(), batch)
    } else {
        feed_step(feed_all(batch, capacity, es.drop_last()), capacity, es.last())
    }
}

/// However fills and takes interleave, the items taken, then those queued,
/// then those still pending are the batch in its order, and the queue never
/// holds more than its capacity: every item is handed on exactly once, in
/// order, once the queue and the batch are drained.
pub proof fn lemma_batch_passes_in_order<T>(batch: Seq<T>, capacity: nat, es: Seq<FeedEvent>)
    requires
        capacity >= 1,
    ensures
        ({
            let (taken, q, pending) = feed_all(batch, capacity, es);
            taken + q + pending == batch && q.len() <= capacity
        }),
    decreases es.len(),
{
    if es.len() > 0 {
        lemma_batch_passes_in_order(batch, capacity, es.drop_last());
        let (taken, q, pending) = feed_all(batch, capacity, es.drop_last());
        match es.last() {
            FeedEvent::Fill => {
                let k = fill_count(q.len(), pending.len(), capacity);
                assert(q + pending.take(k) + pending.skip(k) =~= q + pending);
                assert(taken + (q + pending.take(k)) + pending.skip(k) =~= taken + q + pending);
            },
            FeedEvent::Take => {
                if q.len() > 0 {
                    assert(taken.push(q[0]) + q.drop_first() =~= taken + q);
                }
            },
        }
    }
}

pub struct BoundedQueue<T> {
    items: VecDeque<T>,
    capacity: usize,
}

impl<T> BoundedQueue<T> {
    /// The items waiting, oldest first.
    pub closed spec fn contents(&self) -> Seq<T> {
        self.items@
    }

    pub closed spec fn capacity(&self) -> nat {
        self.capacity as nat
    }

    pub closed spec fn wf(&self) -> bool {
        1 <= self.capacity && self.items@.len() <= self.capacity
    }

    /// An empty queue that holds at most `capacity` items.
    pub fn new(capacity: usize) -> (r: BoundedQueue<T>)
        requires
            capacity >= 1,
        ensures
            r.wf(),
            r.capacity() == capacity,
            r.contents() == Seq::<T>::empty(),
    {
        BoundedQueue { items: VecDeque::new(), capacity }
    }

    pub fn len(&self) -> (r: usize)
        ensures
            r == self.contents().len(),
    {
        self.items.len()
    }

    pub fn is_full(&self) -> (r: bool)
        requires
            self.wf(),
        ensures
            r == (self.contents().len() == self.capacity()),
    {
        self.items.len() == self.capacity
    }

    /// Appends `x` where there is room; hands it back where the queue is full.
    pub fn push(&mut self, x: T) -> (r: Result<(), T>)
        requires
            old(self).wf(),
        ensures
            final(self).wf(),
            final(self).capacity() == old(self).capacity(),
            r is Ok <==> old(self).contents().len() < old(self).capacity(),
            r is Ok ==> final(self).contents() == old(self).contents().push(x),
            r matches Err(y) ==> y == x && final(self).contents() == old(self).contents(),
    {
        if self.items.len() < self.capacity {
            self.items.push_back(x);
            Ok(())
        } else {
            Err(x)
        }
    }

    /// Takes the oldest item, if any.
    pub fn pop(&mut self) -> (r: Option<T>)
        requires
            old(self).wf(),
        ensures
            final(self).wf(),
            final(self).capacity() == old(self).capacity(),
            r is None <==> old(self).contents().len() == 0,
            r matches Some(x) ==> x == old(self).contents()[0] && final(self).contents()
                == old(self).contents().drop_first(),
            r is None ==> final(self).contents() == old(self).contents(),
    {
        self.items.pop_front()
    }

    /// Moves items from the front of `pending` to the back of the queue, in
    /// their order, until the queue is full or `pending` is empty; returns how
    /// many moved.
    pub fn fill_from(&mut self, pending: &mut Vec<T>) -> (moved: usize)
        requires
            old(self).wf(),
        ensures
            final(self).wf(),
            final(self).capacity() == old(self).capacity(),
            moved == fill_count(old(self).contents().len(), old(pending)@.len(), old(self).capacity()),
            final(self).contents() == old(self).contents() + old(pending)@.take(moved as int),
            final(pending)@ == old(pending)@.skip(moved as int),
            final(self).contents() + final(pending)@ == old(self).contents() + old(pending)@,
    {
        let mut moved: usize = 0;
        while pending.len() > 0 && self.items.len() < self.capacity
            invariant
                self.wf(),
                self.capacity == old(self).capacity(),
                moved <= old(pending)@.len(),
                self.items@.len() == old(self).contents().len() + moved,
                self.items@ == old(self).contents() + old(pending)@.take(moved as int),
                pending@ == old(pending)@.skip(moved as int),
            decreases pending@.len(),
        {
            let x = pending.remove(0);
            self.items.push_back(x);
            assert(old(pending)@.take(moved as int + 1) =~= old(pending)@.take(moved as int).push(x));
            moved = moved + 1;
            assert(pending@ =~= old(pending)@.skip(moved as int));
        }
        assert(self.items@ + pending@ =~= old(self).contents() + old(pending)@);
        moved
    }
}

} // verus!
