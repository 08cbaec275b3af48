//! A generic stack kept as a chain of boxed nodes, with peeking, a consuming
//! iterator and iterators that borrow the elements shared or mutably.
use vstd::prelude::*;

use crate::model::{front, popped_front, pushed_front};

verus! {

/// An owning stack; the most recently pushed element is on top.
pub struct List<T> {
    head: Link<T>,
}

type Link<T> = Option<Box<Node<T>>>;

/// A node of the chain: an element and the rest of the chain below it.
pub struct Node<T> {
    elem: T,
    next: Link<T>,
}

impl<T> Node<T> {
    /// The elements of the chain that starts at this node, top first.
    pub closed spec fn values(self) -> Seq<T> {
        seq![self.elem] + values(self.next)
    }
}

/// The elements of a chain, top first.
spec fn values<T>(link: Link<T>) -> Seq<T>
    decreases link,
{
    match link {
        None => Seq::empty(),
        Some(node) => seq![node.elem] + values(node.next),
    }
}

impl<T> View for List<T> {
    type V = Seq<T>;

    /// The stack's contents, top first.
    closed spec fn view(&self) -> Seq<T> {
        values(self.head)
    }
}

impl<T> List<T> {
    /// An empty stack.
    pub fn new() -> (r: Self)
        ensures
            r@ == Seq::<T>::empty(),
    {
        List { head: None }
    }

    /// Puts `elem` on top.
    pub fn push(&mut self, elem: T)
        ensures
            final(self)@ == pushed_front(old(self)@, elem),
    {
        let new_node = Box::new(Node { elem, next: self.head.take() });
        self.head = Some(new_node);
    }

    /// Takes the top element off; `None` on an empty stack.
    pub fn pop(&mut self) -> (r: Option<T>)
        ensures
            r == front(old(self)@),
            final(self)@ == popped_front(old(self)@),
    {
        match self.head.take() {
            None => None,
            Some(node) => {
                let node = *node;
                self.head = node.next;
                proof {
                    assert(popped_front(old(self)@) =~= self@);
                }
                Some(node.elem)
            },
        }
    }

    /// Borrows the top element; `None` on an empty stack.
    pub fn peek(&self) -> (r: Option<&T>)
        ensures
            r is Some <==> self@.len() > 0,
            r is Some ==> Some(*r->0) == front(self@),
    {
        match &self.head {
            None => None,
            Some(node) => Some(&node.elem),
        }
    }

    /// Borrows the top element mutably; what is written through the borrow
    /// becomes the new top element.
    pub fn peek_mut(&mut self) -> (r: Option<&mut T>)
        ensures
            r is Some <==> old(self)@.len() > 0,
            match r {
                Some(e) => Some(*e) == front(old(self)@) && final(self)@ == old(self)@.update(0, *final(e)),
                None => final(self)@ == old(self)@,
            },
    {
        match &mut self.head {
            None => None,
            Some(node) => Some(&mut node.elem),
        }
    }

    /// Turns the stack into an iterator that takes its elements from the top.
    pub fn into_iter(self) -> (r: IntoIter<T>)
        ensures
            r@ == self@,
    {
        IntoIter(self)
    }

    /// Iterates over shared borrows of the elements, top first.
    pub fn iter(&self) -> (r: Iter<'_, T>)
        ensures
            r@ == self@,
    {
        match &self.head {
            None => Iter { next: None },
            Some(node) => Iter { next: Some(&**node) },
        }
    }

    /// Iterates over mutable borrows of the elements, top first; what is
    /// written through them becomes the stack's elements.
    pub fn iter_mut(&mut self) -> (r: IterMut<'_, T>)
        ensures
            r@ == old(self)@,
            r.cursor() is None <==> r@.len() == 0,
            final(self)@ == match r.cursor() {
                None => Seq::empty(),
                Some(node) => final(node).values(),
            },
    {
        match &mut self.head {
            None => IterMut { next: None },
            Some(node) => IterMut { next: Some(&mut **node) },
        }
    }
}

impl<T> Drop for List<T> {
    /// Unlinks the nodes one at a time, so that a long chain is not torn
    /// down by nested destructor calls.
    fn drop(&mut self)
        opens_invariants none
        no_unwind
    {
        let mut cur: Link<T> = None;
        std::mem::swap(&mut cur, &mut self.head);
        loop
            decreases values(cur).len(),
        {
            match cur {
                None => break,
                Some(node) => {
                    let Node { elem: _, next } = *node;
                    cur = next;
                },
            }
        }
    }
}

/// Takes the elements of a stack, top first.
pub struct IntoIter<T>(List<T>);

impl<T> View for IntoIter<T> {
    type V = Seq<T>;

    /// The elements not yet taken, top first.
    closed spec fn view(&self) -> Seq<T> {
        self.0@
    }
}

impl<T> IntoIter<T> {
    /// Takes the next element; `None` once every element was taken.
    pub fn next(&mut self) -> (r: Option<T>)
        ensures
            r == front(old(self)@),
            final(self)@ == popped_front(old(self)@),
    {
        self.0.pop()
    }
}

/// Walks a stack and hands out shared borrows of its elements.
pub struct Iter<'a, T> {
    next: Option<&'a Node<T>>,
}

impl<'a, T> View for Iter<'a, T> {
    type V = Seq<T>;

    /// The elements not yet visited, top first.
    closed spec fn view(&self) -> Seq<T> {
        match self.next {
            None => Seq::empty(),
            Some(node) => seq![node.elem] + values(node.next),
        }
    }
}

impl<'a, T> Iter<'a, T> {
    /// Borrows the next element; `None` once every element was visited.
    pub fn next(&mut self) -> (r: Option<&'a T>)
        ensures
            r is Some <==> old(self)@.len() > 0,
            r is Some ==> Some(*r->0) == front(old(self)@),
            final(self)@ == popped_front(old(self)@),
    {
        match self.next {
            None => None,
            Some(node) => {
                self.next = match &node.next {
                    None => None,
                    Some(n) => Some(&**n),
                };
                proof {
                    assert(popped_front(old(self)@) =~= self@);
                }
                Some(&node.elem)
            },
        }
    }
}

/// Walks a stack and hands out mutable borrows of its elements.
pub struct IterMut<'a, T> {
    next: Option<&'a mut Node<T>>,
}

impl<'a, T> View for IterMut<'a, T> {
    type V = Seq<T>;

    /// The elements not yet visited, top first, as they are now.
    closed spec fn view(&self) -> Seq<T> {
        match self.next {
            None => Seq::empty(),
            Some(node) => seq![node.elem] + values(node.next),
        }
    }
}

impl<'a, T> IterMut<'a, T> {
    /// The borrowed node that comes next, if any.
    pub closed spec fn cursor(&self) -> Option<&'a mut Node<T>> {
        self.next
    }

    /// Borrows the next element mutably; `None` once every element was
    /// visited.
    pub fn next(&mut self) -> (r: Option<&'a mut T>)
        ensures
            r is Some <==> old(self)@.len() > 0,
            final(self)@ == popped_front(old(self)@),
            final(self).cursor() is None <==> final(self)@.len() == 0,
            match r {
                Some(e) => Some(*e) == front(old(self)@) && match (old(self).cursor(), final(self).cursor()) {
                    (Some(node), None) => final(node).values() == seq![*final(e)],
                    (Some(node), Some(n)) => final(node).values() == seq![*final(e)] + final(n).values(),
                    (None, _) => false,
                },
                None => final(self).cursor() is None,
            },
    {
        match self.next.take() {
            None => None,
            Some(node) => {
                self.next = match &mut node.next {
                    None => None,
                    Some(n) => Some(&mut **n),
                };
                Some(&mut node.elem)
            },
        }
    }
}

} // verus!
