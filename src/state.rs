use vstd::prelude::*;

use crate::error::{same_error, ServeError};

verus! {

/// The epoch after one more change.
pub open spec fn next_epoch(e: u64) -> u64 {
    if e == u64::MAX {
        0
    } else {
        (e + 1) as u64
    }
}

/// The outcome of an operation that may have to wait.
#[derive(Debug, PartialEq, Eq)]
pub enum Poll<T> {
    /// The operation finished with this result.
    Ready(T),
    /// Nothing yet: a waiter was registered and is woken on the next change.
    Pending,
}

/// A value shared by writer and reader handles, with change notification.
///
/// Every change bumps `epoch` and wakes every registered waiter. Once closed
/// the value can no longer change, but it can still be read. When the last
/// writer handle goes away without an explicit close, the cell closes with
/// `Cancel`.
pub struct State<T> {
    value: T,
    epoch: u64,
    closed: Result<(), ServeError>,
    writers: u64,
    readers: u64,
    waiters: u64,
}

impl<T> State<T> {
    /// The value held.
    pub closed spec fn value(&self) -> T {
        self.value
    }

    /// A counter that moves on each change, wrapping at `u64::MAX`.
    pub closed spec fn epoch(&self) -> u64 {
        self.epoch
    }

    /// The terminal result: `Ok` while the cell is open.
    pub closed spec fn closed(&self) -> Result<(), ServeError> {
        self.closed
    }

    /// Whether the cell has reached its terminal state.
    pub open spec fn is_closed_spec(&self) -> bool {
        self.closed() is Err
    }

    /// Live writer handles.
    pub closed spec fn writers(&self) -> nat {
        self.writers as nat
    }

    /// Live reader handles.
    pub closed spec fn readers(&self) -> nat {
        self.readers as nat
    }

    /// Waiters registered since the last change.
    pub closed spec fn waiters(&self) -> nat {
        self.waiters as nat
    }

    /// A fresh open cell with one writer and one reader handle.
    pub fn new(value: T) -> (r: Self)
        ensures
            r.value() == value,
            r.epoch() == 0,
            r.closed() == Ok::<(), ServeError>(()),
            r.writers() == 1,
            r.readers() == 1,
            r.waiters() == 0,
    {
        State { value, epoch: 0, closed: Ok(()), writers: 1, readers: 1, waiters: 0 }
    }

    /// A shared view of the value; reads succeed after close too.
    pub fn lock(&self) -> (r: &T)
        ensures
            *r == self.value(),
    {
        &self.value
    }

    /// The epoch as a number.
    pub fn epoch_now(&self) -> (r: u64)
        ensures
            r == self.epoch(),
    {
        self.epoch
    }

    /// The number of live writer handles.
    pub fn writers_now(&self) -> (r: u64)
        ensures
            r == self.writers(),
    {
        self.writers
    }

    /// Whether the cell is closed.
    pub fn is_closed(&self) -> (r: bool)
        ensures
            r == self.is_closed_spec(),
    {
        self.closed.is_err()
    }

    /// A copy of the terminal result.
    pub fn closed_result(&self) -> (r: Result<(), ServeError>)
        ensures
            r is Ok <==> self.closed() is Ok,
            r matches Err(e) ==> self.closed() matches Err(f) && same_error(e, f),
    {
        match &self.closed {
            Ok(()) => Ok(()),
            Err(e) => Err(e.cloned()),
        }
    }

    /// Sets the value, unless the cell is closed, in which case the value
    /// comes back. A change bumps the epoch and wakes every waiter; the number
    /// woken is returned.
    pub fn set(&mut self, value: T) -> (r: Result<u64, T>)
        ensures
            old(self).is_closed_spec() ==> r == Err::<u64, T>(value) && *final(self) == *old(self),
            !old(self).is_closed_spec() ==> {
                &&& r == Ok::<u64, T>(old(self).waiters() as u64)
                &&& final(self).value() == value
                &&& final(self).epoch() == next_epoch(old(self).epoch())
                &&& final(self).waiters() == 0
                &&& final(self).closed() == old(self).closed()
                &&& final(self).writers() == old(self).writers()
                &&& final(self).readers() == old(self).readers()
            },
    {
        if self.closed.is_err() {
            return Err(value);
        }
        self.value = value;
        self.epoch = self.epoch.wrapping_add(1);
        let woken = self.waiters;
        self.waiters = 0;
        Ok(woken)
    }

    /// Exclusive access to the value of an open cell. The change it makes
    /// counts as one: the epoch is bumped and every waiter is woken.
    pub fn lock_mut(&mut self) -> (r: &mut T)
        requires
            !old(self).is_closed_spec(),
        ensures
            *r == old(self).value(),
            final(self).value() == *final(r),
            final(self).epoch() == next_epoch(old(self).epoch()),
            final(self).waiters() == 0,
            final(self).closed() == old(self).closed(),
            final(self).writers() == old(self).writers(),
            final(self).readers() == old(self).readers(),
    {
        self.epoch = self.epoch.wrapping_add(1);
        self.waiters = 0;
        &mut self.value
    }

    /// Registers a waiter for the next change. A closed cell will not change
    /// again: nothing is registered and `false` comes back.
    pub fn modified(&mut self) -> (r: bool)
        requires
            old(self).waiters() < u64::MAX,
        ensures
            r == !old(self).is_closed_spec(),
            r ==> final(self).waiters() == old(self).waiters() + 1,
            !r ==> *final(self) == *old(self),
            final(self).value() == old(self).value(),
            final(self).epoch() == old(self).epoch(),
            final(self).closed() == old(self).closed(),
            final(self).writers() == old(self).writers(),
            final(self).readers() == old(self).readers(),
    {
        if self.closed.is_err() {
            return false;
        }
        self.waiters = self.waiters + 1;
        true
    }

    /// Closes the cell with `err`; the first close wins. Every waiter is woken
    /// by a close; the number woken is returned.
    pub fn close(&mut self, err: ServeError) -> (r: Result<u64, ServeError>)
        ensures
            old(self).is_closed_spec() ==> *final(self) == *old(self),
            old(self).is_closed_spec() ==> (r matches Err(e) && (old(self).closed() matches Err(
                f) && same_error(e, f))),
            !old(self).is_closed_spec() ==> {
                &&& r == Ok::<u64, ServeError>(old(self).waiters() as u64)
                &&& final(self).closed() == Err::<(), ServeError>(err)
                &&& final(self).waiters() == 0
                &&& final(self).value() == old(self).value()
                &&& final(self).epoch() == old(self).epoch()
                &&& final(self).writers() == old(self).writers()
                &&& final(self).readers() == old(self).readers()
            },
    {
        if let Err(e) = &self.closed {
            return Err(e.cloned());
        }
        self.closed = Err(err);
        let woken = self.waiters;
        self.waiters = 0;
        Ok(woken)
    }

    /// Adds a writer handle.
    pub fn split(&mut self)
        requires
            old(self).writers() < u64::MAX,
        ensures
            final(self).writers() == old(self).writers() + 1,
            final(self).readers() == old(self).readers(),
            final(self).value() == old(self).value(),
            final(self).epoch() == old(self).epoch(),
            final(self).closed() == old(self).closed(),
            final(self).waiters() == old(self).waiters(),
    {
        self.writers = self.writers + 1;
    }

    /// Adds a reader handle.
    pub fn add_reader(&mut self)
        requires
            old(self).readers() < u64::MAX,
        ensures
            final(self).readers() == old(self).readers() + 1,
            final(self).writers() == old(self).writers(),
            final(self).value() == old(self).value(),
            final(self).epoch() == old(self).epoch(),
            final(self).closed() == old(self).closed(),
            final(self).waiters() == old(self).waiters(),
    {
        self.readers = self.readers + 1;
    }

    /// Removes a reader handle.
    pub fn drop_reader(&mut self)
        requires
            old(self).readers() > 0,
        ensures
            final(self).readers() == old(self).readers() - 1,
            final(self).writers() == old(self).writers(),
            final(self).value() == old(self).value(),
            final(self).epoch() == old(self).epoch(),
            final(self).closed() == old(self).closed(),
            final(self).waiters() == old(self).waiters(),
    {
        self.readers = self.readers - 1;
    }

    /// The cell after one writer handle is dropped, and the number of waiters
    /// that woke.
    pub closed spec fn dropped_writer(self) -> (State<T>, nat) {
        if self.writers == 1 && self.closed is Ok {
            (State { writers: 0, closed: Err(ServeError::Cancel), waiters: 0, ..self }, self.waiters as nat)
        } else {
            (State { writers: (self.writers - 1) as u64, ..self }, 0)
        }
    }

    /// Removes a writer handle. When it was the last one and the cell is still
    /// open, the cell closes with `Cancel` and every waiter is woken; the
    /// number woken is returned.
    pub fn drop_writer(&mut self) -> (r: u64)
        requires
            old(self).writers() > 0,
        ensures
            (*final(self), r as nat) == old(self).dropped_writer(),
            final(self).writers() == old(self).writers() - 1,
            final(self).readers() == old(self).readers(),
            final(self).value() == old(self).value(),
            final(self).epoch() == old(self).epoch(),
            (old(self).writers() == 1 && !old(self).is_closed_spec()) ==> {
                &&& final(self).closed() == Err::<(), ServeError>(ServeError::Cancel)
                &&& r == old(self).waiters()
                &&& final(self).waiters() == 0
            },
            !(old(self).writers() == 1 && !old(self).is_closed_spec()) ==> {
                &&& final(self).closed() == old(self).closed()
                &&& r == 0
                &&& final(self).waiters() == old(self).waiters()
            },
    {
        self.writers = self.writers - 1;
        if self.writers == 0 && self.closed.is_ok() {
            self.closed = Err(ServeError::Cancel);
            let woken = self.waiters;
            self.waiters = 0;
            woken
        } else {
            0
        }
    }
}

/// The cell after `k` writer handles are dropped one by one, and the number
/// of waiters woken along the way.
pub open spec fn drop_writers<T>(s: State<T>, k: nat) -> (State<T>, nat)
    decreases k,
{
    if k == 0 {
        (s, 0)
    } else {
        let (t, w) = s.dropped_writer();
        let (u, v) = drop_writers(t, (k - 1) as nat);
        (u, w + v)
    }
}

/// Dropping every writer of an open cell closes it with `Cancel`, wakes each
/// waiter registered before exactly once, and leaves none registered.
pub proof fn lemma_last_writer_cancels<T>(s: State<T>)
    requires
        s.writers() > 0,
        !s.is_closed_spec(),
    ensures
        drop_writers(s, s.writers()).0.closed() == Err::<(), ServeError>(ServeError::Cancel),
        drop_writers(s, s.writers()).0.writers() == 0,
        drop_writers(s, s.writers()).0.waiters() == 0,
        drop_writers(s, s.writers()).1 == s.waiters(),
        drop_writers(s, s.writers()).0.value() == s.value(),
    decreases s.writers(),
{
    let (t, w) = s.dropped_writer();
    if s.writers() == 1 {
        assert(drop_writers(t, 0) == (t, 0nat));
    } else {
        lemma_last_writer_cancels(t);
    }
}

} // verus!
