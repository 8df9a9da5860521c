//! The count of work taken in, beside the queue that holds it.

use vstd::prelude::*;
use crate::queue::Queue;

verus! {

/// Whether any work has come in, how much, and the work itself.
#[derive(Debug)]
pub struct AppState<E> {
    has_works: bool,
    total_works: u32,
    queue: Queue<E>,
}

/// What an `AppState` holds.
pub struct AppStateView<E> {
    pub has_works: bool,
    pub total_works: nat,
    pub works: Seq<E>,
}

impl<E> View for AppState<E> {
    type V = AppStateView<E>;

    closed spec fn view(&self) -> AppStateView<E> {
        AppStateView {
            has_works: self.has_works,
            total_works: self.total_works as nat,
            works: self.queue@,
        }
    }
}

impl<E> AppState<E> {
    /// Work has come in exactly when the count is not zero, and the count is the number
    /// of works held.
    pub open spec fn wf(&self) -> bool {
        &&& self@.has_works == (self@.total_works > 0)
        &&& self@.total_works == self@.works.len()
    }

    /// Takes in `email`: counts it and puts it at the back of the queue.
    pub fn add_work(&mut self, email: E)
        requires
            old(self).wf(),
            old(self)@.total_works < u32::MAX,
        ensures
            final(self).wf(),
            final(self)@.has_works,
            final(self)@.total_works == old(self)@.total_works + 1,
            final(self)@.works == old(self)@.works.push(email),
    {
        self.add_total_works();
        self.queue.add_queue(email);
    }

    /// Counts one more work.
    fn add_total_works(&mut self)
        requires
            old(self)@.total_works < u32::MAX,
        ensures
            final(self)@.has_works,
            final(self)@.total_works == old(self)@.total_works + 1,
            final(self)@.works == old(self)@.works,
    {
        if !self.has_works {
            self.has_works = true;
        }
        self.total_works += 1
    }

    /// The number of works taken in.
    pub fn total_works(&self) -> (n: u32)
        ensures
            n == self@.total_works,
    {
        self.total_works
    }

    /// Whether any work has been taken in.
    pub fn has_works(&self) -> (b: bool)
        ensures
            b == self@.has_works,
    {
        self.has_works
    }
}

impl<E> Default for AppState<E> {
    /// No work yet.
    fn default() -> (s: Self)
        ensures
            s.wf(),
            !s@.has_works,
            s@.total_works == 0,
            s@.works == Seq::<E>::empty(),
    {
        Self { has_works: false, total_works: 0, queue: Queue::default() }
    }
}

} // verus!
