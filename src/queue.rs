use vstd::prelude::*;

verus! {

/// The capacity recommended for the ingestion queue.
pub const DEFAULT_CAPACITY: usize = 20;

/// A submission was refused because the queue already held its capacity.
#[derive(Debug, Clone, Copy, PartialEq, Eq, Structural)]
pub struct QueueFull;

/// The queue after one submission, and whether the submission was accepted.
pub open spec fn submit_step<T>(q: Seq<T>, capacity: nat, m: T) -> (Seq<T>, bool) {
    if q.len() < capacity {
        (q.push(m), true)
    } else {
        (q, false)
    }
}

/// The queue after submitting `ms` in order with nobody taking, and the outcome of each submission.
pub open spec fn submit_all<T>(q: Seq<T>, capacity: nat, ms: Seq<T>) -> (Seq<T>, Seq<bool>)
    decreases ms.len(),
{
    if ms.len() == 0 {
        (q, Seq::empty())
    } else {
        let (q1, oks) = submit_all(q, capacity, ms.drop_last());
        let (q2, ok) = submit_step(q1, capacity, ms.last());
        (q2, oks.push(ok))
    }
}

/// A bounded FIFO between message arrival and dispatch; it holds items of type `T`.
pub struct IngestQueue<T> {
    items: Vec<T>,
    capacity: usize,
}

impl<T> View for IngestQueue<T> {
    type V = Seq<T>;

    closed spec fn view(&self) -> Seq<T> {
        self.items@
    }
}

impl<T> IngestQueue<T> {
    pub closed spec fn spec_capacity(&self) -> nat {
        self.capacity as nat
    }

    pub open spec fn wf(&self) -> bool {
        self@.len() <= self.spec_capacity()
    }

    /// An empty queue that holds at most `capacity` messages.
    pub fn new(capacity: usize) -> (r: IngestQueue<T>)
        ensures
            r@ == Seq::<T>::empty(),
            r.spec_capacity() == capacity,
            r.wf(),
    {
        IngestQueue { items: Vec::new(), capacity }
    }

    pub fn capacity(&self) -> (r: usize)
        ensures
            r == self.spec_capacity(),
    {
        self.capacity
    }

    pub fn len(&self) -> (r: usize)
        ensures
            r == self@.len(),
    {
        self.items.len()
    }

    pub fn is_full(&self) -> (r: bool)
        ensures
            r == (self@.len() >= self.spec_capacity()),
    {
        self.items.len() >= self.capacity
    }

    /// Enqueues `msg`, or refuses it with `QueueFull` when the queue is at capacity.
    pub fn submit(&mut self, msg: T) -> (r: Result<(), QueueFull>)
        requires
            old(self).wf(),
        ensures
            final(self).wf(),
            final(self).spec_capacity() == old(self).spec_capacity(),
            r is Ok <==> old(self)@.len() < old(self).spec_capacity(),
            (final(self)@, r is Ok) == submit_step(old(self)@, old(self).spec_capacity(), msg),
    {
        if self.items.len() < self.capacity {
            self.items.push(msg);
            Ok(())
        } else {
            Err(QueueFull)
        }
    }

    /// Dequeues the oldest message, if any.
    pub fn take(&mut self) -> (r: Option<T>)
        requires
            old(self).wf(),
        ensures
            final(self).wf(),
            final(self).spec_capacity() == old(self).spec_capacity(),
            old(self)@.len() == 0 ==> r is None && final(self)@ == old(self)@,
            old(self)@.len() > 0 ==> r == Some(old(self)@[0]) && final(self)@ == old(self)@.drop_first(),
    {
        if self.items.len() == 0 {
            None
        } else {
            let m = self.items.remove(0);
            assert(self.items@ =~= old(self)@.drop_first());
            Some(m)
        }
    }
}

/// While nobody takes from the queue, the submissions that fit are accepted in order
/// and every later one is refused with `QueueFull`: none is lost without that signal.
pub proof fn lemma_overflow_is_signalled<T>(q: Seq<T>, capacity: nat, ms: Seq<T>)
    requires
        q.len() <= capacity,
    ensures
        ({
            let (fq, oks) = submit_all(q, capacity, ms);
            let room = (capacity - q.len()) as int;
            let n = if ms.len() < room { ms.len() as int } else { room };
            &&& oks.len() == ms.len()
            &&& forall|i: int| 0 <= i < ms.len() ==> (oks[i] <==> q.len() + i < capacity)
            &&& fq == q + ms.take(n)
        }),
    decreases ms.len(),
{
    if ms.len() > 0 {
        lemma_overflow_is_signalled(q, capacity, ms.drop_last());
        let (q1, oks1) = submit_all(q, capacity, ms.drop_last());
        let room = (capacity - q.len()) as int;
        let n1 = if ms.len() - 1 < room { ms.len() - 1 } else { room };
        let n = if ms.len() < room { ms.len() as int } else { room };
        assert(q1.len() == q.len() + n1);
        if ms.len() - 1 < room {
            assert(ms.drop_last().take(n1).push(ms.last()) =~= ms.take(n));
            assert(q1.push(ms.last()) =~= q + ms.take(n));
        } else {
            assert(ms.drop_last().take(n1) =~= ms.take(n));
        }
    }
}

} // verus!
