//! A first-in first-out queue: `push` adds at the back and `pop` takes from
//! the front. It offers the full double-ended interface as well; links
//! between nodes are arena indices, so no node is ever reached through two
//! live mutable paths.
use vstd::prelude::*;

use crate::arena::Deque;
use crate::model::{back, front, popped_back, popped_front, pushed_back, pushed_front};

verus! {

/// A queue with constant-time insertion and removal at both ends.
pub struct List<T> {
    nodes: Deque<T>,
}

impl<T> View for List<T> {
    type V = Seq<T>;

    /// The elements from front to back.
    closed spec fn view(&self) -> Seq<T> {
        self.nodes@
    }
}

impl<T> List<T> {
    /// The queue's internal invariant.
    pub closed spec fn well_formed(&self) -> bool {
        self.nodes.well_formed()
    }

    /// An empty queue.
    pub fn new() -> (r: Self)
        ensures
            r.well_formed(),
            r@ == Seq::<T>::empty(),
    {
        List { nodes: Deque::new() }
    }

    /// Adds `elem` at the back of the queue.
    pub fn push(&mut self, elem: T)
        requires
            old(self).well_formed(),
        ensures
            final(self).well_formed(),
            final(self)@ == pushed_back(old(self)@, elem),
    {
        self.nodes.push_back(elem);
    }

    /// Takes the element at the front of the queue; `None` when it is empty.
    pub fn pop(&mut self) -> (r: Option<T>)
        requires
            old(self).well_formed(),
        ensures
            final(self).well_formed(),
            r == front(old(self)@),
            final(self)@ == popped_front(old(self)@),
    {
        self.nodes.pop_front()
    }

    /// Puts `elem` at the front.
    pub fn push_front(&mut self, elem: T)
        requires
            old(self).well_formed(),
        ensures
            final(self).well_formed(),
            final(self)@ == pushed_front(old(self)@, elem),
    {
        self.nodes.push_front(elem);
    }

    /// Removes and returns the front element; `None` on an empty queue.
    pub fn pop_front(&mut self) -> (r: Option<T>)
        requires
            old(self).well_formed(),
        ensures
            final(self).well_formed(),
            r == front(old(self)@),
            final(self)@ == popped_front(old(self)@),
    {
        self.nodes.pop_front()
    }

    /// Borrows the front element; `None` on an empty queue.
    pub fn peek_front(&self) -> (r: Option<&T>)
        requires
            self.well_formed(),
        ensures
            r is Some <==> self@.len() > 0,
            r is Some ==> Some(*r->0) == front(self@),
    {
        self.nodes.peek_front()
    }

    /// Borrows the front element mutably; what is written through the
    /// borrow becomes the new front element.
    pub fn peek_front_mut(&mut self) -> (r: Option<&mut T>)
        requires
            old(self).well_formed(),
        ensures
            final(self).well_formed(),
            r is Some <==> old(self)@.len() > 0,
            match r {
                Some(e) => Some(*e) == front(old(self)@) && final(self)@ == old(self)@.update(0, *final(e)),
                None => final(self)@ == old(self)@,
            },
    {
        self.nodes.peek_front_mut()
    }

    /// Puts `elem` at the back.
    pub fn push_back(&mut self, elem: T)
        requires
            old(self).well_formed(),
        ensures
            final(self).well_formed(),
            final(self)@ == pushed_back(old(self)@, elem),
    {
        self.nodes.push_back(elem);
    }

    /// Removes and returns the back element; `None` on an empty queue.
    pub fn pop_back(&mut self) -> (r: Option<T>)
        requires
            old(self).well_formed(),
        ensures
            final(self).well_formed(),
            r == back(old(self)@),
            final(self)@ == popped_back(old(self)@),
    {
        self.nodes.pop_back()
    }

    /// Borrows the back element; `None` on an empty queue.
    pub fn peek_back(&self) -> (r: Option<&T>)
        requires
            self.well_formed(),
        ensures
            r is Some <==> self@.len() > 0,
            r is Some ==> Some(*r->0) == back(self@),
    {
        self.nodes.peek_back()
    }

    /// Borrows the back element mutably; what is written through the
    /// borrow becomes the new back element.
    pub fn peek_back_mut(&mut self) -> (r: Option<&mut T>)
        requires
            old(self).well_formed(),
        ensures
            final(self).well_formed(),
            r is Some <==> old(self)@.len() > 0,
            match r {
                Some(e) => Some(*e) == back(old(self)@) && final(self)@ == old(self)@.update(
                    old(self)@.len() - 1,
                    *final(e),
                ),
                None => final(self)@ == old(self)@,
            },
    {
        self.nodes.peek_back_mut()
    }

    /// Turns the queue into an iterator that takes elements from either end.
    pub fn into_iter(self) -> (r: IntoIter<T>)
        requires
            self.well_formed(),
        ensures
            r.well_formed(),
            r@ == self@,
    {
        IntoIter(self)
    }
}

/// Takes the elements of a queue from the front with `next` and from the
/// back with `next_back`.
pub struct IntoIter<T>(List<T>);

impl<T> View for IntoIter<T> {
    type V = Seq<T>;

    /// The elements not yet taken, from front to back.
    closed spec fn view(&self) -> Seq<T> {
        self.0@
    }
}

impl<T> IntoIter<T> {
    /// The iterator's internal invariant.
    pub closed spec fn well_formed(&self) -> bool {
        self.0.well_formed()
    }

    /// Takes the front element; `None` once every element was taken.
    pub fn next(&mut self) -> (r: Option<T>)
        requires
            old(self).well_formed(),
        ensures
            final(self).well_formed(),
            r == front(old(self)@),
            final(self)@ == popped_front(old(self)@),
    {
        self.0.pop_front()
    }

    /// Takes the back element; `None` once every element was taken.
    pub fn next_back(&mut self) -> (r: Option<T>)
        requires
            old(self).well_formed(),
        ensures
            final(self).well_formed(),
            r == back(old(self)@),
            final(self)@ == popped_back(old(self)@),
    {
        self.0.pop_back()
    }
}

} // verus!
