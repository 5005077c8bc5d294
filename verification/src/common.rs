//! A receiver whose head can be looked at before it is taken.

use std::collections::VecDeque;
use vstd::prelude::*;

verus! {

/// The consumer's end of a hand-off. Items leave in the order in which they
/// arrived, and the next one to leave can be inspected first: a sender
/// decides by the head's size how much capacity to ask for, and takes the
/// head once that capacity is granted.
pub struct PeekableReceiver<T> {
    pending: VecDeque<T>,
}

impl<T> View for PeekableReceiver<T> {
    type V = Seq<T>;

    /// The items that have arrived and not left, oldest first.
    closed spec fn view(&self) -> Seq<T> {
        self.pending@
    }
}

impl<T> PeekableReceiver<T> {
    /// The item that leaves next, if any is held.
    pub open spec fn head(&self) -> Option<T> {
        if self@.len() > 0 {
            Some(self@[0])
        } else {
            None
        }
    }

    /// A receiver that holds nothing.
    pub fn new() -> (r: Self)
        ensures
            r@ == Seq::<T>::empty(),
    {
        PeekableReceiver { pending: VecDeque::new() }
    }

    /// Takes in an item that the hand-off delivered.
    pub fn push(&mut self, item: T)
        ensures
            final(self)@ == old(self)@.push(item),
    {
        self.pending.push_back(item);
    }

    /// How many items are held.
    pub fn len(&self) -> (n: usize)
        ensures
            n == self@.len(),
    {
        self.pending.len()
    }

    /// The head, if there is one. The receiver is left as it is, so that
    /// looking again shows the same item.
    pub fn peek(&self) -> (head: Option<&T>)
        ensures
            match head {
                Some(item) => self.head() == Some(*item),
                None => self.head() is None,
            },
    {
        if self.pending.len() > 0 {
            Some(&self.pending[0])
        } else {
            None
        }
    }

    /// Takes the head, if there is one: the item that `peek` showed. What
    /// was behind it moves up, in order.
    pub fn next(&mut self) -> (head: Option<T>)
        ensures
            head == old(self).head(),
            old(self)@.len() == 0 ==> final(self)@ == old(self)@,
            old(self)@.len() > 0 ==> final(self)@ == old(self)@.skip(1),
    {
        let head = self.pending.pop_front();
        proof {
            if old(self)@.len() > 0 {
                assert(self.pending@ =~= old(self)@.skip(1));
            }
        }
        head
    }
}

} // verus!
