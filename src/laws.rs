//! Laws that hold of every list in this crate, stated over the sequence
//! model that the operations' contracts use.
use vstd::prelude::*;

use crate::model::{back, front, popped_back, popped_front, pushed_back, pushed_front};

verus! {

/// The sequence after pushing the elements of `xs` at the front, first
/// element first.
pub open spec fn push_all_front<T>(s: Seq<T>, xs: Seq<T>) -> Seq<T>
    decreases xs.len(),
{
    if xs.len() == 0 {
        s
    } else {
        pushed_front(push_all_front(s, xs.drop_last()), xs.last())
    }
}

/// The sequence after pushing the elements of `xs` at the back, first
/// element first.
pub open spec fn push_all_back<T>(s: Seq<T>, xs: Seq<T>) -> Seq<T>
    decreases xs.len(),
{
    if xs.len() == 0 {
        s
    } else {
        pushed_back(push_all_back(s, xs.drop_last()), xs.last())
    }
}

/// Pops `n` times from the front: the results in order, and what is left.
pub open spec fn pop_n_front<T>(s: Seq<T>, n: nat) -> (Seq<Option<T>>, Seq<T>)
    decreases n,
{
    if n == 0 {
        (Seq::empty(), s)
    } else {
        let (rs, rest) = pop_n_front(popped_front(s), (n - 1) as nat);
        (seq![front(s)] + rs, rest)
    }
}

/// Pops `n` times from the back: the results in order, and what is left.
pub open spec fn pop_n_back<T>(s: Seq<T>, n: nat) -> (Seq<Option<T>>, Seq<T>)
    decreases n,
{
    if n == 0 {
        (Seq::empty(), s)
    } else {
        let (rs, rest) = pop_n_back(popped_back(s), (n - 1) as nat);
        (seq![back(s)] + rs, rest)
    }
}

/// The elements of `xs` in reverse order, each as a present result.
pub open spec fn reversed_results<T>(xs: Seq<T>) -> Seq<Option<T>> {
    Seq::new(xs.len(), |i: int| Some(xs[xs.len() - 1 - i]))
}

/// Used at one end only, a list is a stack: after pushing `xs` at the front
/// of any list, as many pops from the front return `xs` in reverse order and
/// leave the list as it was.
pub proof fn lemma_stack_front<T>(s: Seq<T>, xs: Seq<T>)
    ensures
        pop_n_front(push_all_front(s, xs), xs.len()) == (reversed_results(xs), s),
    decreases xs.len(),
{
    if xs.len() > 0 {
        let ys = xs.drop_last();
        lemma_stack_front(s, ys);
        assert(popped_front(push_all_front(s, xs)) =~= push_all_front(s, ys));
        assert(reversed_results(xs) =~= seq![Some(xs.last())] + reversed_results(ys));
    }
}

/// The same at the back: after pushing `xs` at the back, as many pops from
/// the back return `xs` in reverse order and leave the list as it was.
pub proof fn lemma_stack_back<T>(s: Seq<T>, xs: Seq<T>)
    ensures
        pop_n_back(push_all_back(s, xs), xs.len()) == (reversed_results(xs), s),
    decreases xs.len(),
{
    if xs.len() > 0 {
        let ys = xs.drop_last();
        lemma_stack_back(s, ys);
        assert(popped_back(push_all_back(s, xs)) =~= push_all_back(s, ys));
        assert(reversed_results(xs) =~= seq![Some(xs.last())] + reversed_results(ys));
    }
}

/// Popping an empty list any number of times, from either end, returns
/// `None` every time and leaves it empty.
pub proof fn lemma_empty_stays_empty<T>(n: nat)
    ensures
        pop_n_front(Seq::<T>::empty(), n) == (Seq::new(n, |i: int| None::<T>), Seq::<T>::empty()),
        pop_n_back(Seq::<T>::empty(), n) == (Seq::new(n, |i: int| None::<T>), Seq::<T>::empty()),
    decreases n,
{
    if n > 0 {
        lemma_empty_stays_empty::<T>((n - 1) as nat);
        assert(Seq::new(n, |i: int| None::<T>) =~= seq![None::<T>] + Seq::new((n - 1) as nat, |i: int| None::<T>));
    }
}

/// One operation on a double-ended list.
pub enum DequeOp<T> {
    PushFront(T),
    PushBack(T),
    PopFront,
    PopBack,
}

/// The list after `op`.
pub open spec fn apply<T>(s: Seq<T>, op: DequeOp<T>) -> Seq<T> {
    match op {
        DequeOp::PushFront(x) => pushed_front(s, x),
        DequeOp::PushBack(x) => pushed_back(s, x),
        DequeOp::PopFront => popped_front(s),
        DequeOp::PopBack => popped_back(s),
    }
}

/// The list after running `ops` in order on an empty list.
pub open spec fn run<T>(ops: Seq<DequeOp<T>>) -> Seq<T>
    decreases ops.len(),
{
    if ops.len() == 0 {
        Seq::empty()
    } else {
        apply(run(ops.drop_last()), ops.last())
    }
}

/// How many of `ops` push an element.
pub open spec fn pushes<T>(ops: Seq<DequeOp<T>>) -> nat
    decreases ops.len(),
{
    if ops.len() == 0 {
        0
    } else {
        pushes(ops.drop_last()) + match ops.last() {
            DequeOp::PushFront(_) | DequeOp::PushBack(_) => 1nat,
            _ => 0nat,
        }
    }
}

/// How many of `ops` remove an element, that is pop a list that is not
/// empty at that point.
pub open spec fn removals<T>(ops: Seq<DequeOp<T>>) -> nat
    decreases ops.len(),
{
    if ops.len() == 0 {
        0
    } else {
        removals(ops.drop_last()) + match ops.last() {
            DequeOp::PopFront | DequeOp::PopBack => if run(ops.drop_last()).len() > 0 {
                1nat
            } else {
                0nat
            },
            _ => 0nat,
        }
    }
}

/// Whatever the interleaving of pushes and pops at either end, no more
/// elements come out than went in, the list holds exactly the difference,
/// and an exhausted list is empty at both ends at once.
pub proof fn lemma_pushes_bound_removals<T>(ops: Seq<DequeOp<T>>)
    ensures
        removals(ops) <= pushes(ops),
        run(ops).len() == pushes(ops) - removals(ops),
        front(run(ops)) is None <==> back(run(ops)) is None,
    decreases ops.len(),
{
    if ops.len() > 0 {
        lemma_pushes_bound_removals(ops.drop_last());
    }
}

/// A peek shows the element that the next pop from the same end returns,
/// and leaves the list as it is (it borrows the list shared); only the pop
/// shortens the list, by one, and on an empty list both report absence.
pub proof fn lemma_peek_then_pop<T>(s: Seq<T>)
    ensures
        s.len() > 0 ==> front(s) == Some(s[0]) && popped_front(s).len() == s.len() - 1,
        s.len() > 0 ==> back(s) == Some(s.last()) && popped_back(s).len() == s.len() - 1,
        s.len() == 0 ==> front(s) is None && back(s) is None && popped_front(s) == s && popped_back(s) == s,
{
}

} // verus!
