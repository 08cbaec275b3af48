//! A double-ended queue whose nodes live in one growable arena and refer to
//! their neighbours by slot index. Freed slots are kept on a free list and
//! reused by later pushes, so every end operation takes constant time.
use vstd::prelude::*;

use crate::model::{back, front, popped_back, popped_front, pushed_back, pushed_front};

verus! {

/// One arena slot: an element with the slots of its neighbours, or a free
/// slot when `elem` is `None`.
struct Node<T> {
    elem: Option<T>,
    prev: Option<usize>,
    next: Option<usize>,
}

/// A reference that keeps a node alive: the queue's own `head` or `tail`,
/// or the `next` or `prev` link of the node in the given slot.
pub enum Owner {
    Head,
    Tail,
    Next(usize),
    Prev(usize),
}

/// A double-ended queue of index-linked nodes.
pub struct Deque<T> {
    nodes: Vec<Node<T>>,
    free: Vec<usize>,
    head: Option<usize>,
    tail: Option<usize>,
    /// The occupied slots, from front to back.
    order: Ghost<Seq<usize>>,
}

/// The slot before position `k` of `order`, if any.
spec fn prev_at(order: Seq<usize>, k: int) -> Option<usize> {
    if k == 0 {
        None
    } else {
        Some(order[k - 1])
    }
}

/// The slot after position `k` of `order`, if any.
spec fn next_at(order: Seq<usize>, k: int) -> Option<usize> {
    if k + 1 == order.len() {
        None
    } else {
        Some(order[k + 1])
    }
}

/// The first slot of `order`, if any.
spec fn first_at(order: Seq<usize>) -> Option<usize> {
    if order.len() == 0 {
        None
    } else {
        Some(order[0])
    }
}

/// The last slot of `order`, if any.
spec fn last_at(order: Seq<usize>) -> Option<usize> {
    if order.len() == 0 {
        None
    } else {
        Some(order.last())
    }
}

impl<T> Deque<T> {
    /// The node at position `k` holds an element and links exactly to the
    /// nodes at positions `k - 1` and `k + 1`.
    spec fn linked_at(&self, k: int) -> bool {
        let i = self.order@[k];
        &&& i < self.nodes@.len()
        &&& self.nodes@[i as int].elem is Some
        &&& self.nodes@[i as int].prev == prev_at(self.order@, k)
        &&& self.nodes@[i as int].next == next_at(self.order@, k)
    }

    /// The chain from `head` to `tail` visits the slots of `order`, each once.
    spec fn chain_ok(&self) -> bool {
        let o = self.order@;
        &&& forall|k: int| 0 <= k < o.len() ==> #[trigger] self.linked_at(k)
        &&& forall|a: int, b: int|
            0 <= a < o.len() && 0 <= b < o.len() && a != b ==> o[a] != o[b]
        &&& self.head == first_at(o)
        &&& self.tail == last_at(o)
    }

    /// Every slot on the free list is an empty slot of the arena, listed once.
    spec fn free_ok(&self) -> bool {
        let f = self.free@;
        &&& forall|j: int|
            0 <= j < f.len() ==> #[trigger] f[j] < self.nodes@.len()
                && self.nodes@[f[j] as int].elem is None
        &&& forall|a: int, b: int| 0 <= a < f.len() && 0 <= b < f.len() && a != b ==> f[a] != f[b]
    }

    /// The arena's invariant: a well-formed chain, a valid free list, and no
    /// slot that is neither in the chain nor free.
    pub closed spec fn well_formed(&self) -> bool {
        &&& self.chain_ok()
        &&& self.free_ok()
        &&& self.nodes@.len() == self.order@.len() + self.free@.len()
    }
}

impl<T> View for Deque<T> {
    type V = Seq<T>;

    /// The elements from front to back.
    closed spec fn view(&self) -> Seq<T> {
        Seq::new(self.order@.len(), |k: int| self.nodes@[self.order@[k] as int].elem->Some_0)
    }
}

impl<T> Deque<T> {
    /// An empty queue.
    pub fn new() -> (r: Self)
        ensures
            r.well_formed(),
            r@ == Seq::<T>::empty(),
    {
        let r = Deque { nodes: Vec::new(), free: Vec::new(), head: None, tail: None, order: Ghost(Seq::empty()) };
        proof {
            assert(r@ =~= Seq::<T>::empty());
        }
        r
    }

    /// Stores a node in a free slot, or in a new one, and returns its index.
    /// The chain is left untouched.
    fn place(&mut self, node: Node<T>) -> (i: usize)
        requires
            old(self).well_formed(),
            node.elem is Some,
        ensures
            final(self).free_ok(),
            final(self).nodes@.len() == final(self).order@.len() + final(self).free@.len() + 1,
            final(self).order == old(self).order,
            final(self).head == old(self).head,
            final(self).tail == old(self).tail,
            i < final(self).nodes@.len(),
            final(self).nodes@[i as int] == node,
            old(self).nodes@.len() <= i || old(self).nodes@[i as int].elem is None,
            final(self).nodes@.len() >= old(self).nodes@.len(),
            forall|j: int| 0 <= j < old(self).nodes@.len() && j != i ==> final(self).nodes@[j] == old(self).nodes@[j],
    {
        match self.free.pop() {
            Some(i) => {
                proof {
                    assert(old(self).free@[old(self).free@.len() - 1] == i);
                }
                self.nodes.set(i, node);
                proof {
                    assert forall|j: int| 0 <= j < self.free@.len() implies #[trigger] self.free@[j] < self.nodes@.len()
                        && self.nodes@[self.free@[j] as int].elem is None by {
                        assert(old(self).free@[j] == self.free@[j]);
                        assert(self.free@[j] != i);
                    }
                }
                i
            }
            None => {
                self.nodes.push(node);
                self.nodes.len() - 1
            }
        }
    }

    /// Puts `elem` at the front.
    pub fn push_front(&mut self, elem: T)
        requires
            old(self).well_formed(),
        ensures
            final(self).well_formed(),
            final(self)@ == pushed_front(old(self)@, elem),
    {
        let old_head = self.head;
        let i = self.place(Node { elem: Some(elem), prev: None, next: old_head });
        match old_head {
            Some(h) => {
                proof {
                    assert(old(self).linked_at(0));
                }
                self.nodes[h].prev = Some(i);
            },
            None => {
                self.tail = Some(i);
            },
        }
        self.head = Some(i);
        let ghost o = old(self).order@;
        self.order = Ghost(seq![i] + o);
        proof {
            assert forall|k: int| 0 <= k < self.order@.len() implies #[trigger] self.linked_at(k) by {
                if k > 0 {
                    assert(old(self).linked_at(k - 1));
                }
            }
            assert forall|a: int, b: int|
                0 <= a < self.order@.len() && 0 <= b < self.order@.len() && a != b
                implies self.order@[a] != self.order@[b] by {
                if a > 0 {
                    assert(old(self).linked_at(a - 1));
                }
                if b > 0 {
                    assert(old(self).linked_at(b - 1));
                }
            }
            assert(self@ =~= pushed_front(old(self)@, elem)) by {
                assert forall|k: int| 0 < k < self.order@.len() implies self@[k] == old(self)@[k - 1] by {
                    assert(old(self).linked_at(k - 1));
                }
            }
        }
    }

    /// Puts `elem` at the back.
    pub fn push_back(&mut self, elem: T)
        requires
            old(self).well_formed(),
        ensures
            final(self).well_formed(),
            final(self)@ == pushed_back(old(self)@, elem),
    {
        let old_tail = self.tail;
        let i = self.place(Node { elem: Some(elem), prev: old_tail, next: None });
        let ghost o = old(self).order@;
        match old_tail {
            Some(t) => {
                proof {
                    assert(old(self).linked_at(o.len() - 1));
                }
                self.nodes[t].next = Some(i);
            },
            None => {
                self.head = Some(i);
            },
        }
        self.tail = Some(i);
        self.order = Ghost(o.push(i));
        proof {
            assert forall|k: int| 0 <= k < self.order@.len() implies #[trigger] self.linked_at(k) by {
                if k < o.len() {
                    assert(old(self).linked_at(k));
                }
            }
            assert forall|a: int, b: int|
                0 <= a < self.order@.len() && 0 <= b < self.order@.len() && a != b
                implies self.order@[a] != self.order@[b] by {
                if a < o.len() {
                    assert(old(self).linked_at(a));
                }
                if b < o.len() {
                    assert(old(self).linked_at(b));
                }
            }
            assert(self@ =~= pushed_back(old(self)@, elem)) by {
                assert forall|k: int| 0 <= k < o.len() implies self@[k] == old(self)@[k] by {
                    assert(old(self).linked_at(k));
                }
            }
        }
    }

    /// Takes the element out of occupied slot `i` and puts the slot on the
    /// free list. The chain is left untouched.
    fn release(&mut self, i: usize) -> (r: T)
        requires
            old(self).free_ok(),
            i < old(self).nodes@.len(),
            old(self).nodes@[i as int].elem is Some,
        ensures
            final(self).free_ok(),
            final(self).free@.len() == old(self).free@.len() + 1,
            final(self).nodes@.len() == old(self).nodes@.len(),
            final(self).nodes@[i as int].elem is None,
            final(self).nodes@[i as int].prev == old(self).nodes@[i as int].prev,
            final(self).nodes@[i as int].next == old(self).nodes@[i as int].next,
            forall|j: int| 0 <= j < old(self).nodes@.len() && j != i ==> final(self).nodes@[j] == old(self).nodes@[j],
            r == old(self).nodes@[i as int].elem->Some_0,
            final(self).order == old(self).order,
            final(self).head == old(self).head,
            final(self).tail == old(self).tail,
    {
        let r = self.nodes[i].elem.take();
        self.free.push(i);
        proof {
            assert forall|j: int| 0 <= j < self.free@.len() implies #[trigger] self.free@[j] < self.nodes@.len()
                && self.nodes@[self.free@[j] as int].elem is None by {
                if j + 1 < self.free@.len() {
                    assert(old(self).free@[j] == self.free@[j]);
                }
            }
            assert forall|a: int, b: int|
                0 <= a < self.free@.len() && 0 <= b < self.free@.len() && a != b
                implies self.free@[a] != self.free@[b] by {
                if a + 1 == self.free@.len() {
                    assert(old(self).free@[b] < old(self).nodes@.len());
                }
                if b + 1 == self.free@.len() {
                    assert(old(self).free@[a] < old(self).nodes@.len());
                }
            }
        }
        r.unwrap()
    }

    /// Removes and returns the front element; `None` on an empty queue.
    pub fn pop_front(&mut self) -> (r: Option<T>)
        requires
            old(self).well_formed(),
        ensures
            final(self).well_formed(),
            r == front(old(self)@),
            final(self)@ == popped_front(old(self)@),
    {
        match self.head {
            None => None,
            Some(h) => {
                let ghost o = self.order@;
                proof {
                    assert(self.linked_at(0));
                }
                let next = self.nodes[h].next;
                let elem = self.release(h);
                match next {
                    Some(n) => {
                        proof {
                            assert(old(self).linked_at(1));
                        }
                        self.nodes[n].prev = None;
                        self.head = Some(n);
                    },
                    None => {
                        self.head = None;
                        self.tail = None;
                    },
                }
                self.order = Ghost(o.drop_first());
                proof {
                    assert forall|k: int| 0 <= k < self.order@.len() implies #[trigger] self.linked_at(k) by {
                        assert(old(self).linked_at(k + 1));
                    }
                    assert forall|a: int, b: int|
                        0 <= a < self.order@.len() && 0 <= b < self.order@.len() && a != b
                        implies self.order@[a] != self.order@[b] by {
                        assert(o[a + 1] != o[b + 1]);
                    }
                    assert(self@ =~= popped_front(old(self)@)) by {
                        assert forall|k: int| 0 <= k < self.order@.len() implies self@[k] == old(self)@[k + 1] by {
                            assert(old(self).linked_at(k + 1));
                            assert(o[k + 1] != h);
                        }
                    }
                }
                Some(elem)
            },
        }
    }

    /// Removes and returns the back element; `None` on an empty queue.
    pub fn pop_back(&mut self) -> (r: Option<T>)
        requires
            old(self).well_formed(),
        ensures
            final(self).well_formed(),
            r == back(old(self)@),
            final(self)@ == popped_back(old(self)@),
    {
        match self.tail {
            None => None,
            Some(t) => {
                let ghost o = self.order@;
                let ghost len = o.len();
                proof {
                    assert(self.linked_at(len - 1));
                }
                let prev = self.nodes[t].prev;
                let elem = self.release(t);
                match prev {
                    Some(p) => {
                        proof {
                            assert(old(self).linked_at(len - 2));
                        }
                        self.nodes[p].next = None;
                        self.tail = Some(p);
                    },
                    None => {
                        self.head = None;
                        self.tail = None;
                    },
                }
                self.order = Ghost(o.drop_last());
                proof {
                    assert forall|k: int| 0 <= k < self.order@.len() implies #[trigger] self.linked_at(k) by {
                        assert(old(self).linked_at(k));
                    }
                    assert(self@ =~= popped_back(old(self)@)) by {
                        assert forall|k: int| 0 <= k < self.order@.len() implies self@[k] == old(self)@[k] by {
                            assert(old(self).linked_at(k));
                            assert(o[k] != t);
                        }
                    }
                }
                Some(elem)
            },
        }
    }

    /// Borrows the front element; `None` on an empty queue.
    pub fn peek_front(&self) -> (r: Option<&T>)
        requires
            self.well_formed(),
        ensures
            r is Some <==> self@.len() > 0,
            r is Some ==> Some(*r->0) == front(self@),
    {
        match self.head {
            None => None,
            Some(h) => {
                proof {
                    assert(self.linked_at(0));
                }
                self.nodes[h].elem.as_ref()
            },
        }
    }

    /// Borrows the back element; `None` on an empty queue.
    pub fn peek_back(&self) -> (r: Option<&T>)
        requires
            self.well_formed(),
        ensures
            r is Some <==> self@.len() > 0,
            r is Some ==> Some(*r->0) == back(self@),
    {
        match self.tail {
            None => None,
            Some(t) => {
                proof {
                    assert(self.linked_at(self.order@.len() - 1));
                }
                self.nodes[t].elem.as_ref()
            },
        }
    }

    /// `b` is `a` with the element in slot `i` replaced by `x`.
    spec fn elem_replaced(a: Self, b: Self, i: usize, x: T) -> bool {
        &&& i < a.nodes@.len()
        &&& b.nodes@ == a.nodes@.update(i as int, Node { elem: Some(x), ..a.nodes@[i as int] })
        &&& b.free == a.free
        &&& b.head == a.head
        &&& b.tail == a.tail
        &&& b.order == a.order
    }

    /// Replacing the element of the node at position `k` keeps the arena
    /// well formed and replaces the `k`-th element of the view.
    proof fn lemma_elem_replaced(a: Self, k: int)
        requires
            a.well_formed(),
            0 <= k < a.order@.len(),
        ensures
            forall|b: Self, x: T| #[trigger] Self::elem_replaced(a, b, a.order@[k], x) ==> b.well_formed() && b@ == a@.update(k, x),
    {
        assert forall|b: Self, x: T| #[trigger] Self::elem_replaced(a, b, a.order@[k], x) implies b.well_formed() && b@ == a@.update(k, x) by {
            assert forall|m: int| 0 <= m < b.order@.len() implies #[trigger] b.linked_at(m) by {
                assert(a.linked_at(m));
            }
            assert(a.linked_at(k));
            assert forall|j: int| 0 <= j < b.free@.len() implies #[trigger] b.free@[j] < b.nodes@.len()
                && b.nodes@[b.free@[j] as int].elem is None by {
                assert(a.free@[j] < a.nodes@.len());
            }
            assert(b@ =~= a@.update(k, x)) by {
                assert forall|m: int| 0 <= m < b.order@.len() && m != k implies b@[m] == a@[m] by {
                    assert(a.linked_at(m));
                }
            }
        }
    }

    /// Borrows the element of occupied slot `i` mutably.
    fn elem_mut(&mut self, i: usize) -> (e: &mut T)
        requires
            i < old(self).nodes@.len(),
            old(self).nodes@[i as int].elem is Some,
        ensures
            *e == old(self).nodes@[i as int].elem->Some_0,
            Self::elem_replaced(*old(self), *final(self), i, *final(e)),
    {
        self.nodes[i].elem.as_mut().unwrap()
    }

    /// Borrows the front element mutably; what is written through the
    /// borrow becomes the new front element.
    pub fn peek_front_mut(&mut self) -> (r: Option<&mut T>)
        requires
            old(self).well_formed(),
        ensures
            final(self).well_formed(),
            r is Some <==> old(self)@.len() > 0,
            match r {
                Some(e) => Some(*e) == front(old(self)@) && final(self)@ == old(self)@.update(0, *final(e)),
                None => final(self)@ == old(self)@,
            },
    {
        match self.head {
            None => None,
            Some(h) => {
                proof {
                    assert(self.linked_at(0));
                    Self::lemma_elem_replaced(*self, 0);
                }
                Some(self.elem_mut(h))
            },
        }
    }

    /// Borrows the back element mutably; what is written through the
    /// borrow becomes the new back element.
    pub fn peek_back_mut(&mut self) -> (r: Option<&mut T>)
        requires
            old(self).well_formed(),
        ensures
            final(self).well_formed(),
            r is Some <==> old(self)@.len() > 0,
            match r {
                Some(e) => Some(*e) == back(old(self)@) && final(self)@ == old(self)@.update(
                    old(self)@.len() - 1,
                    *final(e),
                ),
                None => final(self)@ == old(self)@,
            },
    {
        match self.tail {
            None => None,
            Some(t) => {
                proof {
                    assert(self.linked_at(self.order@.len() - 1));
                    Self::lemma_elem_replaced(*self, self.order@.len() - 1);
                }
                Some(self.elem_mut(t))
            },
        }
    }

    /// The slot of the node at position `k`, front first.
    pub closed spec fn slot_at(&self, k: int) -> usize {
        self.order@[k]
    }

    /// The references that point at slot `i`: the queue's ends, and the
    /// links of the nodes in the chain.
    pub closed spec fn owners(&self, i: usize) -> Set<Owner> {
        Set::new(
            |o: Owner|
                match o {
                    Owner::Head => self.head == Some(i),
                    Owner::Tail => self.tail == Some(i),
                    Owner::Next(j) => self.order@.contains(j) && self.nodes@[j as int].next == Some(i),
                    Owner::Prev(j) => self.order@.contains(j) && self.nodes@[j as int].prev == Some(i),
                },
        )
    }

    /// Every node has exactly two owners: an interior node its predecessor's
    /// `next` and its successor's `prev`; an end node the queue's `head` or
    /// `tail` in place of the missing neighbour; the only node of a
    /// one-element queue both `head` and `tail`.
    pub proof fn lemma_two_owners(&self, k: int)
        requires
            self.well_formed(),
            0 <= k < self@.len(),
        ensures
            self.owners(self.slot_at(k)) == set![
                if k == 0 { Owner::Head } else { Owner::Next(self.slot_at(k - 1)) },
                if k + 1 == self@.len() { Owner::Tail } else { Owner::Prev(self.slot_at(k + 1)) },
            ],
            self.owners(self.slot_at(k)).len() == 2,
    {
        let o = self.order@;
        let i = o[k];
        let a = if k == 0 { Owner::Head } else { Owner::Next(o[k - 1]) };
        let b = if k + 1 == o.len() { Owner::Tail } else { Owner::Prev(o[k + 1]) };
        assert forall|w: Owner| #[trigger] self.owners(i).contains(w) == set![a, b].contains(w) by {
            match w {
                Owner::Next(j) => {
                    if self.owners(i).contains(w) {
                        let m = choose|m: int| 0 <= m < o.len() && o[m] == j;
                        assert(self.linked_at(m));
                        assert(o[m + 1] == i);
                    }
                    if k > 0 && j == o[k - 1] {
                        assert(self.linked_at(k - 1));
                        assert(o.contains(j));
                    }
                },
                Owner::Prev(j) => {
                    if self.owners(i).contains(w) {
                        let m = choose|m: int| 0 <= m < o.len() && o[m] == j;
                        assert(self.linked_at(m));
                        assert(o[m - 1] == i);
                    }
                    if k + 1 < o.len() && j == o[k + 1] {
                        assert(self.linked_at(k + 1));
                        assert(o.contains(j));
                    }
                },
                Owner::Head => {
                    assert(k != 0 ==> o[0] != o[k]);
                },
                Owner::Tail => {
                    assert(k + 1 != o.len() ==> o[o.len() - 1] != o[k]);
                },
            }
        }
        assert(self.owners(i) =~= set![a, b]);
        assert(a != b);
        assert(set![a, b].len() == 2);
    }
}

} // verus!
