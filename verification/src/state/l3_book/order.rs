//! Book order representation with intrusive linked list pointers.

use vstd::prelude::*;

use crate::state::order::Order;
use crate::types::OrderId;

verus! {

/// Individual order in the book with linked list pointers.
///
/// Each order belongs to a doubly-linked list at its price level, which gives
/// insertion and removal in constant time and the FIFO order of the level.
#[derive(Clone, Copy, Debug, PartialEq, Eq, Structural)]
pub struct BookOrder {
    pub order: Order,
    /// Previous order in queue (toward head). None if this is the head.
    pub prev: Option<OrderId>,
    /// Next order in queue (toward tail). None if this is the tail.
    pub next: Option<OrderId>,
}

impl BookOrder {
    /// Create a new book order (initially unlinked).
    pub fn new(order: Order) -> (r: BookOrder)
        ensures
            r == (BookOrder { order, prev: None, next: None }),
    {
        BookOrder { order, prev: None, next: None }
    }

    /// The order itself.
    pub fn order(&self) -> (r: &Order)
        ensures
            *r == self.order,
    {
        &self.order
    }

    /// Previous order in the FIFO queue (toward head).
    pub fn prev(&self) -> (r: Option<OrderId>)
        ensures
            r == self.prev,
    {
        self.prev
    }

    /// Next order in the FIFO queue (toward tail).
    pub fn next(&self) -> (r: Option<OrderId>)
        ensures
            r == self.next,
    {
        self.next
    }

    /// Update the underlying order data (for size changes).
    pub fn update_order(&mut self, order: Order)
        ensures
            *final(self) == (BookOrder { order, ..*old(self) }),
    {
        self.order = order;
    }

    /// Set the previous order pointer.
    pub fn set_prev(&mut self, prev: Option<OrderId>)
        ensures
            *final(self) == (BookOrder { prev, ..*old(self) }),
    {
        self.prev = prev;
    }

    /// Set the next order pointer.
    pub fn set_next(&mut self, next: Option<OrderId>)
        ensures
            *final(self) == (BookOrder { next, ..*old(self) }),
    {
        self.next = next;
    }
}

} // verus!
