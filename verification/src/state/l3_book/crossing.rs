//! Crossed and uncrossed books.
//!
//! The exchange matches a new order against the other side before it lets
//! it rest, so that between requests no live ask stands at or below a live
//! bid. The book itself takes whatever it is given; what it guarantees is
//! that it stays uncrossed as long as it is given nothing that crosses.

use vstd::prelude::*;

use crate::num::Decimal;
use crate::state::l3_book::query::active_size;
use crate::state::l3_book::{add_check, BookModel, OrderBook};
use crate::state::order::Order;
use crate::types::order::OrderSide;
use crate::types::OrderId;

verus! {

/// Whether the order counts for the best price: it is not expired and has
/// size left.
pub open spec fn live(order: Order) -> bool {
    !order.spec_is_expired() && order.size.units > 0
}

/// Whether the ask `a` stands at or below the bid `b`, both live.
pub open spec fn cross(a: Order, b: Order) -> bool {
    &&& a.spec_side() == OrderSide::Ask
    &&& b.spec_side() == OrderSide::Bid
    &&& live(a)
    &&& live(b)
    &&& a.price.units <= b.price.units
}

impl BookModel {
    /// Whether no live ask of the book stands at or below a live bid.
    pub open spec fn uncrossed(&self) -> bool {
        forall|a: OrderId, b: OrderId|
            self.orders.contains_key(a) && self.orders.contains_key(b) ==> !cross(
                #[trigger] self.orders[a],
                #[trigger] self.orders[b],
            )
    }

    /// Whether `order` crosses no order of the book.
    pub open spec fn admits(&self, order: Order) -> bool {
        forall|x: OrderId| #[trigger]
            self.orders.contains_key(x) ==> !cross(order, self.orders[x]) && !cross(
                self.orders[x],
                order,
            )
    }
}

/// A queue whose live orders have size holds a live order.
pub proof fn lemma_active_member(orders: Map<OrderId, Order>, q: Seq<OrderId>)
    requires
        active_size(orders, q) > 0,
    ensures
        exists|k: int| 0 <= k < q.len() && live(orders[#[trigger] q[k]]),
    decreases q.len(),
{
    if q.len() > 0 {
        if live(orders[q.last()]) {
            assert(live(orders[q[q.len() - 1]]));
        } else {
            lemma_active_member(orders, q.drop_last());
            let k = choose|k: int| 0 <= k < q.drop_last().len() && live(orders[#[trigger] q.drop_last()[k]]);
            assert(q.drop_last()[k] == q[k]);
        }
    }
}

impl OrderBook {
    /// In an uncrossed book the best ask is above the best bid.
    pub proof fn lemma_best_prices_apart(&self, ask: Decimal, bid: Decimal)
        requires
            self.wf(),
            self@.uncrossed(),
            self@.is_best(OrderSide::Ask, ask),
            self@.is_best(OrderSide::Bid, bid),
        ensures
            ask.units > bid.units,
    {
        let model = self@;
        lemma_active_member(model.orders, model.queue(OrderSide::Ask, ask));
        lemma_active_member(model.orders, model.queue(OrderSide::Bid, bid));
        let qa = model.queue(OrderSide::Ask, ask);
        let qb = model.queue(OrderSide::Bid, bid);
        let i = choose|k: int| 0 <= k < qa.len() && live(model.orders[#[trigger] qa[k]]);
        let j = choose|k: int| 0 <= k < qb.len() && live(model.orders[#[trigger] qb[k]]);
        assert(qa.contains(qa[i]));
        assert(qb.contains(qb[j]));
        self.lemma_queue_members(OrderSide::Ask, ask, qa[i]);
        self.lemma_queue_members(OrderSide::Bid, bid, qb[j]);
        assert(!cross(model.orders[qa[i]], model.orders[qb[j]]));
    }
}

/// An uncrossed book stays uncrossed when an order joins that crosses none
/// of its orders.
pub proof fn lemma_add_keeps_uncrossed(model: BookModel, order: Order)
    requires
        model.uncrossed(),
        model.admits(order),
        add_check(model, order) is Ok,
    ensures
        model.add(order).uncrossed(),
{
    let after = model.add(order);
    assert forall|a: OrderId, b: OrderId|
        after.orders.contains_key(a) && after.orders.contains_key(b) implies !cross(
        #[trigger] after.orders[a],
        #[trigger] after.orders[b],
    ) by {
        if a == order.order_id && b == order.order_id {
        } else if a == order.order_id {
            assert(model.orders.contains_key(b));
        } else if b == order.order_id {
            assert(model.orders.contains_key(a));
        } else {
            assert(model.orders.contains_key(a) && model.orders.contains_key(b));
            assert(!cross(model.orders[a], model.orders[b]));
        }
    }
}

/// An uncrossed book stays uncrossed when an order leaves.
pub proof fn lemma_remove_keeps_uncrossed(model: BookModel, id: OrderId)
    requires
        model.uncrossed(),
    ensures
        model.remove(id).uncrossed(),
{
    let after = model.remove(id);
    assert forall|a: OrderId, b: OrderId|
        after.orders.contains_key(a) && after.orders.contains_key(b) implies !cross(
        #[trigger] after.orders[a],
        #[trigger] after.orders[b],
    ) by {
        assert(model.orders.contains_key(a) && model.orders.contains_key(b));
        assert(!cross(model.orders[a], model.orders[b]));
    }
}

/// An uncrossed book stays uncrossed when orders expire.
pub proof fn lemma_expire_keeps_uncrossed(model: BookModel, instant: crate::types::StateInstant)
    requires
        model.uncrossed(),
    ensures
        model.expire(instant).uncrossed(),
{
    let after = model.expire(instant);
    assert forall|a: OrderId, b: OrderId|
        after.orders.contains_key(a) && after.orders.contains_key(b) implies !cross(
        #[trigger] after.orders[a],
        #[trigger] after.orders[b],
    ) by {
        assert(model.orders.contains_key(a) && model.orders.contains_key(b));
        assert(!cross(model.orders[a], model.orders[b]));
    }
}

/// An order ID is free again once its order has left the book, and taken as
/// long as it has not.
pub proof fn lemma_id_reuse(model: BookModel, order: Order)
    requires
        order.order_id != 0,
        model.orders.contains_key(order.order_id),
    ensures
        add_check(model, order) == Err::<(), crate::state::l3_book::BookError>(
            crate::state::l3_book::BookError::DuplicateOrderId(order.order_id),
        ),
        !model.remove(order.order_id).orders.contains_key(order.order_id),
        !(add_check(model.remove(order.order_id), order) is Err && add_check(
            model.remove(order.order_id),
            order,
        )->Err_0 is DuplicateOrderId),
{
}

} // verus!
