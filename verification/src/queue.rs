//! The first-in, first-out queue of work waiting to be sent.

use vstd::prelude::*;
use std::collections::VecDeque;

verus! {

/// Work items in the order in which they arrived.
#[derive(Debug)]
pub struct Queue<E> {
    pub queue: VecDeque<E>,
}

impl<E> View for Queue<E> {
    type V = Seq<E>;

    /// The items, the oldest first.
    open spec fn view(&self) -> Seq<E> {
        self.queue@
    }
}

impl<E> Queue<E> {
    /// An empty queue.
    pub fn new() -> (q: Self)
        ensures
            q@ == Seq::<E>::empty(),
    {
        Self { queue: VecDeque::new() }
    }

    /// Puts `email` at the back of the queue.
    pub fn add_queue(&mut self, email: E)
        ensures
            final(self)@ == old(self)@.push(email),
    {
        self.queue.push_back(email);
    }

    /// The number of items waiting.
    pub fn get_total_work(&self) -> (n: usize)
        ensures
            n == self@.len(),
    {
        self.queue.len()
    }

    /// Takes the oldest item from the front of the queue; nothing when it is empty.
    pub fn remove_queue(&mut self) -> (email: Option<E>)
        ensures
            old(self)@.len() == 0 ==> email is None && final(self)@ == old(self)@,
            old(self)@.len() > 0 ==> email == Some(old(self)@[0]) && final(self)@ == old(
                self,
            )@.drop_first(),
    {
        let email = self.queue.pop_front();
        email
    }
}

impl<E> Default for Queue<E> {
    /// An empty queue.
    fn default() -> (q: Self)
        ensures
            q@ == Seq::<E>::empty(),
    {
        Self::new()
    }
}

/// Items leave the queue in the order in which they came: when `items` are added, in
/// order, to a queue that holds `held`, taking every item from the front gives back
/// `held` and then `items`.
pub proof fn lemma_first_in_first_out<E>(held: Seq<E>, items: Seq<E>)
    ensures
        added_all(held, items) == held + items,
        removed(added_all(held, items), held.len() + items.len()) == held + items,
{
    lemma_added_all(held, items);
    lemma_removed_prefix(held + items, held.len() + items.len());
    assert((held + items).take((held.len() + items.len()) as int) =~= held + items);
}

proof fn lemma_added_all<E>(held: Seq<E>, items: Seq<E>)
    ensures
        added_all(held, items) == held + items,
    decreases items.len(),
{
    if items.len() > 0 {
        lemma_added_all(held, items.drop_last());
        assert(held + items =~= (held + items.drop_last()).push(items.last()));
    }
}

proof fn lemma_removed_prefix<E>(q: Seq<E>, n: nat)
    requires
        n <= q.len(),
    ensures
        removed(q, n) == q.take(n as int),
    decreases n,
{
    if n > 0 {
        lemma_removed_prefix(q.drop_first(), (n - 1) as nat);
        assert(seq![q[0]] + q.drop_first().take(n - 1) =~= q.take(n as int));
    }
}

/// The queue `held` after each of `items` is added at its back, in order.
pub open spec fn added_all<E>(held: Seq<E>, items: Seq<E>) -> Seq<E>
    decreases items.len(),
{
    if items.len() == 0 {
        held
    } else {
        added_all(held, items.drop_last()).push(items.last())
    }
}

/// The items that `n` removals from the front of the queue `q` give, in order.
pub open spec fn removed<E>(q: Seq<E>, n: nat) -> Seq<E>
    decreases n,
{
    if n == 0 || q.len() == 0 {
        seq![]
    } else {
        seq![q[0]] + removed(q.drop_first(), (n - 1) as nat)
    }
}

} // verus!
