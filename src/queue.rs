use vstd::prelude::*;

use std::collections::VecDeque;

use crate::state::Poll;

verus! {

/// What one `pop` does to the waiting items of a queue, closed or not, and
/// what it returns.
pub open spec fn pop_step<T>(items: Seq<T>, closed: bool) -> (Seq<T>, Poll<Option<T>>) {
    if items.len() > 0 {
        (items.drop_first(), Poll::Ready(Some(items[0])))
    } else if closed {
        (items, Poll::Ready(None))
    } else {
        (items, Poll::Pending)
    }
}

/// What `k` pops in a row return, starting from `items`.
pub open spec fn pop_results<T>(items: Seq<T>, closed: bool, k: nat) -> Seq<Poll<Option<T>>>
    decreases k,
{
    if k == 0 {
        Seq::empty()
    } else {
        let (rest, r) = pop_step(items, closed);
        seq![r] + pop_results(rest, closed, (k - 1) as nat)
    }
}

/// Once a queue is closed, pops hand out the remaining items in the order
/// they were pushed, and after them only the end, however often asked.
pub proof fn lemma_closed_queue_drains<T>(items: Seq<T>, k: nat)
    ensures
        pop_results(items, true, k).len() == k,
        forall|i: int|
            0 <= i < k ==> #[trigger] pop_results(items, true, k)[i] == if i < items.len() {
                Poll::Ready(Some(items[i]))
            } else {
                Poll::Ready(None)
            },
    decreases k,
{
    if k > 0 {
        let (rest, r) = pop_step(items, true);
        lemma_closed_queue_drains(rest, (k - 1) as nat);
        let all = pop_results(items, true, k);
        assert forall|i: int| 0 <= i < k implies #[trigger] all[i] == if i < items.len() {
            Poll::Ready(Some(items[i]))
        } else {
            Poll::Ready(None)
        } by {
            if i > 0 {
                assert(all[i] == pop_results(rest, true, (k - 1) as nat)[i - 1]);
                if i < items.len() {
                    assert(rest[i - 1] == items[i]);
                }
            }
        }
    }
}

/// A first-in first-out queue shared by producers and consumers.
///
/// `push` never waits; `pop` hands out the oldest item, and on an empty
/// queue either registers a waiter or, once the queue is closed, reports the
/// end. Items pushed before the close are still handed out after it.
pub struct Queue<T> {
    items: VecDeque<T>,
    closed: bool,
    writers: u64,
    waiters: u64,
}

impl<T> Queue<T> {
    /// The items waiting, oldest first.
    pub closed spec fn items(&self) -> Seq<T> {
        self.items@
    }

    /// Whether the queue takes no more items.
    pub closed spec fn is_closed_spec(&self) -> bool {
        self.closed
    }

    /// Live producer handles.
    pub closed spec fn writers(&self) -> nat {
        self.writers as nat
    }

    /// Consumers waiting for an item.
    pub closed spec fn waiters(&self) -> nat {
        self.waiters as nat
    }

    /// An empty open queue with one producer handle.
    pub fn new() -> (r: Self)
        ensures
            r.items() == Seq::<T>::empty(),
            !r.is_closed_spec(),
            r.writers() == 1,
            r.waiters() == 0,
    {
        Queue { items: VecDeque::new(), closed: false, writers: 1, waiters: 0 }
    }

    /// How many items wait.
    pub fn len(&self) -> (r: usize)
        ensures
            r == self.items().len(),
    {
        self.items.len()
    }

    /// Whether the queue is closed.
    pub fn is_closed(&self) -> (r: bool)
        ensures
            r == self.is_closed_spec(),
    {
        self.closed
    }

    /// Appends `item`, waking every waiting consumer; a closed queue hands
    /// the item back.
    pub fn push(&mut self, item: T) -> (r: Result<(), T>)
        ensures
            old(self).is_closed_spec() ==> r == Err::<(), T>(item) && *final(self) == *old(self),
            !old(self).is_closed_spec() ==> {
                &&& r == Ok::<(), T>(())
                &&& final(self).items() == old(self).items().push(item)
                &&& final(self).waiters() == 0
            },
            final(self).is_closed_spec() == old(self).is_closed_spec(),
            final(self).writers() == old(self).writers(),
    {
        if self.closed {
            return Err(item);
        }
        self.items.push_back(item);
        self.waiters = 0;
        Ok(())
    }

    /// Takes the oldest item. An empty open queue registers a waiter and is
    /// `Pending`; an empty closed queue is at its end.
    pub fn pop(&mut self) -> (r: Poll<Option<T>>)
        requires
            old(self).waiters() < u64::MAX,
        ensures
            (final(self).items(), r) == pop_step(old(self).items(), old(self).is_closed_spec()),
            old(self).items().len() > 0 ==> {
                &&& r == Poll::Ready(Some(old(self).items()[0]))
                &&& final(self).items() == old(self).items().drop_first()
                &&& final(self).waiters() == old(self).waiters()
            },
            old(self).items().len() == 0 && old(self).is_closed_spec() ==> r == Poll::<Option<T>>::Ready(None)
                && *final(self) == *old(self),
            old(self).items().len() == 0 && !old(self).is_closed_spec() ==> {
                &&& r == Poll::<Option<T>>::Pending
                &&& final(self).items() == old(self).items()
                &&& final(self).waiters() == old(self).waiters() + 1
            },
            final(self).is_closed_spec() == old(self).is_closed_spec(),
            final(self).writers() == old(self).writers(),
    {
        if self.items.len() > 0 {
            let item = self.items.pop_front();
            return Poll::Ready(item);
        }
        if self.closed {
            return Poll::Ready(None);
        }
        self.waiters = self.waiters + 1;
        Poll::Pending
    }

    /// Takes every waiting item at once, oldest first. A closed queue gives
    /// nothing and keeps its items for `pop`.
    pub fn drain(&mut self) -> (r: Vec<T>)
        ensures
            !old(self).is_closed_spec() ==> r@ == old(self).items() && final(self).items()
                == Seq::<T>::empty(),
            old(self).is_closed_spec() ==> r@ == Seq::<T>::empty() && *final(self) == *old(self),
            final(self).is_closed_spec() == old(self).is_closed_spec(),
            final(self).writers() == old(self).writers(),
            final(self).waiters() == old(self).waiters(),
    {
        let mut out: Vec<T> = Vec::new();
        if self.closed {
            return out;
        }
        let ghost start = self.items@;
        while self.items.len() > 0
            invariant
                out@ + self.items@ == start,
                self.closed == old(self).closed,
                self.writers == old(self).writers,
                self.waiters == old(self).waiters,
            decreases self.items@.len(),
        {
            let ghost before = self.items@;
            match self.items.pop_front() {
                Some(item) => {
                    out.push(item);
                    assert(out@ + self.items@ =~= start) by {
                        assert(before == seq![item] + self.items@);
                        assert(out@ + self.items@ =~= (out@.drop_last() + before));
                    }
                },
                None => {},
            }
        }
        assert(out@ =~= start);
        out
    }

    /// Adds a producer handle.
    pub fn split(&mut self)
        requires
            old(self).writers() < u64::MAX,
        ensures
            final(self).writers() == old(self).writers() + 1,
            final(self).items() == old(self).items(),
            final(self).is_closed_spec() == old(self).is_closed_spec(),
            final(self).waiters() == old(self).waiters(),
    {
        self.writers = self.writers + 1;
    }

    /// Closes the queue; it takes no more items. Returns how many waiting
    /// consumers are woken.
    pub fn close(&mut self) -> (r: u64)
        ensures
            final(self).is_closed_spec(),
            final(self).items() == old(self).items(),
            final(self).writers() == old(self).writers(),
            final(self).waiters() == 0,
            r == old(self).waiters(),
    {
        self.closed = true;
        let woken = self.waiters;
        self.waiters = 0;
        woken
    }

    /// Removes a producer handle; the last one closes the queue.
    pub fn drop_writer(&mut self) -> (r: u64)
        requires
            old(self).writers() > 0,
        ensures
            final(self).writers() == old(self).writers() - 1,
            final(self).items() == old(self).items(),
            old(self).writers() == 1 ==> final(self).is_closed_spec() && final(self).waiters() == 0
                && r == old(self).waiters(),
            old(self).writers() > 1 ==> final(self).is_closed_spec() == old(self).is_closed_spec()
                && final(self).waiters() == old(self).waiters() && r == 0,
    {
        self.writers = self.writers - 1;
        if self.writers == 0 {
            self.close()
        } else {
            0
        }
    }
}

impl<T> Default for Queue<T> {
    fn default() -> (r: Self)
        ensures
            r.items() == Seq::<T>::empty(),
            !r.is_closed_spec(),
            r.writers() == 1,
            r.waiters() == 0,
    {
        Queue::new()
    }
}

} // verus!
