//! A stack of `i32` values kept as a chain of boxed nodes.
use vstd::prelude::*;

use crate::model::{front, popped_front, pushed_front};

verus! {

/// An owning stack of integers; the most recently pushed value is on top.
pub struct List {
    head: Link,
}

enum Link {
    Empty,
    More(Box<Node>),
}

struct Node {
    elem: i32,
    next: Link,
}

impl Link {
    /// The values of the chain, top first.
    spec fn values(self) -> Seq<i32>
        decreases self,
    {
        match self {
            Link::Empty => Seq::empty(),
            Link::More(node) => seq![node.elem] + node.next.values(),
        }
    }
}

impl Link {
    /// Leaves `Empty` in place of the link and returns what was there.
    fn take(&mut self) -> (r: Link)
        ensures
            r == *old(self),
            *final(self) == Link::Empty,
    {
        let mut r = Link::Empty;
        std::mem::swap(self, &mut r);
        r
    }
}

impl View for List {
    type V = Seq<i32>;

    /// The stack's contents, top first.
    closed spec fn view(&self) -> Seq<i32> {
        self.head.values()
    }
}

impl List {
    /// An empty stack.
    pub fn new() -> (r: Self)
        ensures
            r@ == Seq::<i32>::empty(),
    {
        List { head: Link::Empty }
    }

    /// Puts `elem` on top.
    pub fn push(&mut self, elem: i32)
        ensures
            final(self)@ == pushed_front(old(self)@, elem),
    {
        let next = self.head.take();
        let new_node = Box::new(Node { elem, next });
        self.head = Link::More(new_node);
    }

    /// Takes the top value off, or returns `None` on an empty stack.
    pub fn pop(&mut self) -> (r: Option<i32>)
        ensures
            r == front(old(self)@),
            final(self)@ == popped_front(old(self)@),
    {
        match self.head.take() {
            Link::Empty => None,
            Link::More(node) => {
                let node = *node;
                self.head = node.next;
                proof {
                    assert(old(self)@.drop_first() =~= self@);
                }
                Some(node.elem)
            }
        }
    }
}

impl Drop for List {
    /// Unlinks the nodes one at a time, so that a long chain is not torn
    /// down by nested destructor calls.
    fn drop(&mut self)
        opens_invariants none
        no_unwind
    {
        let mut cur = Link::Empty;
        std::mem::swap(&mut cur, &mut self.head);
        loop
            decreases cur.values().len(),
        {
            match cur {
                Link::Empty => break,
                Link::More(node) => {
                    let Node { elem: _, next } = *node;
                    cur = next;
                },
            }
        }
    }
}

} // verus!
