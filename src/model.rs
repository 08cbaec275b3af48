//! The sequence model shared by every list in this crate: a list is viewed as
//! the sequence of its elements from front (top) to back, and each operation
//! is described by what it does to that sequence.
use vstd::prelude::*;

verus! {

/// The sequence after `x` was put in front of `s`.
pub open spec fn pushed_front<T>(s: Seq<T>, x: T) -> Seq<T> {
    seq![x] + s
}

/// The sequence after `x` was put behind `s`.
pub open spec fn pushed_back<T>(s: Seq<T>, x: T) -> Seq<T> {
    s.push(x)
}

/// The first element, if any.
pub open spec fn front<T>(s: Seq<T>) -> Option<T> {
    if s.len() == 0 {
        None
    } else {
        Some(s[0])
    }
}

/// The last element, if any.
pub open spec fn back<T>(s: Seq<T>) -> Option<T> {
    if s.len() == 0 {
        None
    } else {
        Some(s.last())
    }
}

/// The sequence without its first element; an empty sequence stays empty.
pub open spec fn popped_front<T>(s: Seq<T>) -> Seq<T> {
    if s.len() == 0 {
        s
    } else {
        s.drop_first()
    }
}

/// The sequence without its last element; an empty sequence stays empty.
pub open spec fn popped_back<T>(s: Seq<T>) -> Seq<T> {
    if s.len() == 0 {
        s
    } else {
        s.drop_last()
    }
}

} // verus!
