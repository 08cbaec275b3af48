//! A persistent singly-linked list: `prepend` and `tail` build new lists
//! that share the unchanged rest of the chain with the list they came from.
use vstd::prelude::*;

use std::rc::Rc;

use crate::model::{front, popped_front, pushed_front};

verus! {

/// An immutable list whose nodes may be shared with other lists.
pub struct List<T> {
    head: Link<T>,
}

type Link<T> = Option<Rc<Node<T>>>;

/// A node of the chain: an element and the rest of the chain after it.
pub struct Node<T> {
    elem: T,
    next: Link<T>,
}

/// The elements of a chain, front first.
spec fn values<T>(link: Link<T>) -> Seq<T>
    decreases link,
{
    match link {
        None => Seq::empty(),
        Some(node) => seq![node.elem] + values(node.next),
    }
}

impl<T> View for List<T> {
    type V = Seq<T>;

    /// The list's elements, front first.
    closed spec fn view(&self) -> Seq<T> {
        values(self.head)
    }
}

/// Another handle on the chain `link`.
fn share<T>(link: &Link<T>) -> (r: Link<T>)
    ensures
        r == *link,
{
    match link {
        None => None,
        Some(node) => Some(Rc::clone(node)),
    }
}

impl<T> List<T> {
    /// An empty list.
    pub fn new() -> (r: Self)
        ensures
            r@ == Seq::<T>::empty(),
    {
        List { head: None }
    }

    /// A new list of `elem` followed by the elements of this one, which it
    /// shares.
    pub fn prepend(&self, elem: T) -> (r: List<T>)
        ensures
            r@ == pushed_front(self@, elem),
    {
        List { head: Some(Rc::new(Node { elem, next: share(&self.head) })) }
    }

    /// A new list of every element but the first, shared with this one; the
    /// tail of an empty list is empty.
    pub fn tail(&self) -> (r: List<T>)
        ensures
            r@ == popped_front(self@),
    {
        match &self.head {
            None => List { head: None },
            Some(node) => {
                proof {
                    assert(popped_front(self@) =~= values(node.next));
                }
                List { head: share(&node.next) }
            },
        }
    }

    /// Borrows the first element; `None` on an empty list.
    pub fn head(&self) -> (r: Option<&T>)
        ensures
            r is Some <==> self@.len() > 0,
            r is Some ==> Some(*r->0) == front(self@),
    {
        match &self.head {
            None => None,
            Some(node) => Some(&node.elem),
        }
    }

    /// Iterates over shared borrows of the elements, front first.
    pub fn iter(&self) -> (r: Iter<'_, T>)
        ensures
            r@ == self@,
    {
        match &self.head {
            None => Iter { next: None },
            Some(node) => Iter { next: Some(&**node) },
        }
    }
}

/// Walks a list and hands out shared borrows of its elements.
pub struct Iter<'a, T> {
    next: Option<&'a Node<T>>,
}

impl<'a, T> View for Iter<'a, T> {
    type V = Seq<T>;

    /// The elements not yet visited, front first.
    closed spec fn view(&self) -> Seq<T> {
        match self.next {
            None => Seq::empty(),
            Some(node) => seq![node.elem] + values(node.next),
        }
    }
}

impl<'a, T> Iter<'a, T> {
    /// Borrows the next element; `None` once every element was visited.
    pub fn next(&mut self) -> (r: Option<&'a T>)
        ensures
            r is Some <==> old(self)@.len() > 0,
            r is Some ==> Some(*r->0) == front(old(self)@),
            final(self)@ == popped_front(old(self)@),
    {
        match self.next {
            None => None,
            Some(node) => {
                self.next = match &node.next {
                    None => None,
                    Some(n) => Some(&**n),
                };
                proof {
                    assert(popped_front(old(self)@) =~= self@);
                }
                Some(&node.elem)
            },
        }
    }
}

} // verus!
