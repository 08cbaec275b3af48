//! Linked lists in several ownership styles: a singly-linked stack of
//! integers, a generic stack with borrowing iterators, a persistent list with
//! shared tails, and double-ended queues kept in an arena of indexed nodes.
use vstd::prelude::*;

pub mod model;
pub mod laws;
pub mod first;
pub mod second;
pub mod third;
pub mod arena;
pub mod fourth;
pub mod fifth;

verus! {

} // verus!
