//! The end-of-block step that marks the orders whose last block has passed.

use vstd::prelude::*;

use crate::state::l3_book::{
    all_resting, holds, level_wf, lemma_queue_size_frame, member_ok, orders_of, side_wf, slot,
    slots_wf, BookLevel, BookModel, BookOrder, OrderBook,
};
use crate::state::order::Order;
use crate::types::order::OrderSide;
use crate::types::{OrderId, StateInstant};

verus! {

/// The order as it stands once it has been brought up to `instant`, if that
/// makes it expired; else the order as it is.
pub open spec fn expired_at(order: Order, instant: StateInstant) -> Order {
    if order.expires_at(instant) {
        Order { instant, ..order }
    } else {
        order
    }
}

impl BookModel {
    /// The book after every order has been brought up to `instant` that this
    /// makes expired. Queues and sizes are as before.
    pub open spec fn expire(&self, instant: StateInstant) -> BookModel {
        BookModel {
            orders: Map::new(
                |id: OrderId| self.orders.contains_key(id),
                |id: OrderId| expired_at(self.orders[id], instant),
            ),
            ..*self
        }
    }

    /// The orders with an ID below `n` that turn expired at `instant`, as
    /// they stand afterwards, by ascending ID.
    pub open spec fn expiring(&self, instant: StateInstant, n: int) -> Seq<Order>
        decreases n,
    {
        if n <= 0 {
            Seq::empty()
        } else {
            let rest = self.expiring(instant, n - 1);
            let id = (n - 1) as OrderId;
            if n <= 65536 && self.orders.contains_key(id) && self.orders[id].expires_at(instant) {
                rest.push(expired_at(self.orders[id], instant))
            } else {
                rest
            }
        }
    }
}

/// No order expires beyond the IDs that the book holds.
pub proof fn lemma_expiring_beyond(model: BookModel, instant: StateInstant, n: int, m: int)
    requires
        0 <= n <= m,
        forall|id: OrderId| id >= n ==> !model.orders.contains_key(id),
    ensures
        model.expiring(instant, m) == model.expiring(instant, n),
    decreases m - n,
{
    if n < m {
        lemma_expiring_beyond(model, instant, n, m - 1);
    }
}

/// A level stays consistent while the orders it queues keep their links,
/// side, price and size.
pub proof fn lemma_level_frame_fields(
    a: Seq<Option<BookOrder>>,
    b: Seq<Option<BookOrder>>,
    level: BookLevel,
    side: OrderSide,
)
    requires
        level_wf(a, level, side),
        forall|i: int|
            0 <= i < level.queue@.len() ==> {
                let id = #[trigger] level.queue@[i];
                &&& holds(b, id)
                &&& slot(b, id).prev == slot(a, id).prev
                &&& slot(b, id).next == slot(a, id).next
                &&& slot(b, id).order.order_type == slot(a, id).order.order_type
                &&& slot(b, id).order.price == slot(a, id).order.price
                &&& slot(b, id).order.size == slot(a, id).order.size
            },
    ensures
        level_wf(b, level, side),
{
    let q = level.queue@;
    assert forall|i: int| 0 <= i < q.len() implies orders_of(a)[#[trigger] q[i]].size == orders_of(
        b,
    )[q[i]].size by {
        assert(member_ok(a, level.price, side, q, i));
    }
    lemma_queue_size_frame(orders_of(a), orders_of(b), q);
    assert forall|i: int| 0 <= i < q.len() implies #[trigger] member_ok(
        b,
        level.price,
        side,
        q,
        i,
    ) by {
        assert(member_ok(a, level.price, side, q, i));
        assert(holds(b, q[i]));
    }
}

/// Whether array `b` is array `a` with the first `n` orders brought up to
/// `instant` where that makes them expired.
pub open spec fn expired_upto(
    a: Seq<Option<BookOrder>>,
    b: Seq<Option<BookOrder>>,
    instant: StateInstant,
    n: int,
) -> bool {
    &&& a.len() == b.len()
    &&& forall|i: int|
        0 <= i < a.len() ==> #[trigger] b[i] == (if i < n {
            match a[i] {
                Some(bo) => Some(BookOrder { order: expired_at(bo.order, instant), ..bo }),
                None => None,
            }
        } else {
            a[i]
        })
}

/// Bringing orders up to an instant leaves the book consistent.
proof fn lemma_expired_wf(
    asks: Seq<BookLevel>,
    bids: Seq<BookLevel>,
    a: Seq<Option<BookOrder>>,
    b: Seq<Option<BookOrder>>,
    instant: StateInstant,
    n: int,
)
    requires
        slots_wf(a),
        side_wf(asks, OrderSide::Ask, a),
        side_wf(bids, OrderSide::Bid, a),
        all_resting(asks, bids, OrderSide::Ask, a),
        expired_upto(a, b, instant, n),
    ensures
        slots_wf(b),
        side_wf(asks, OrderSide::Ask, b),
        side_wf(bids, OrderSide::Bid, b),
        all_resting(asks, bids, OrderSide::Ask, b),
{
    assert forall|id: OrderId| #[trigger] holds(b, id) implies id != 0 && slot(b, id).order.order_id
        == id by {
        assert(b[id as int] is Some);
        assert(holds(a, id));
    }
    assert forall|i: int| 0 <= i < asks.len() implies level_wf(b, #[trigger] asks[i], OrderSide::Ask) by {
        let l = asks[i];
        assert(level_wf(a, l, OrderSide::Ask));
        assert forall|k: int| 0 <= k < l.queue@.len() implies {
            let id = #[trigger] l.queue@[k];
            &&& holds(b, id)
            &&& slot(b, id).prev == slot(a, id).prev
            &&& slot(b, id).next == slot(a, id).next
            &&& slot(b, id).order.order_type == slot(a, id).order.order_type
            &&& slot(b, id).order.price == slot(a, id).order.price
            &&& slot(b, id).order.size == slot(a, id).order.size
        } by {
            assert(member_ok(a, l.price, OrderSide::Ask, l.queue@, k));
            assert(b[l.queue@[k] as int] is Some);
        }
        lemma_level_frame_fields(a, b, l, OrderSide::Ask);
    }
    assert forall|i: int| 0 <= i < bids.len() implies level_wf(b, #[trigger] bids[i], OrderSide::Bid) by {
        let l = bids[i];
        assert(level_wf(a, l, OrderSide::Bid));
        assert forall|k: int| 0 <= k < l.queue@.len() implies {
            let id = #[trigger] l.queue@[k];
            &&& holds(b, id)
            &&& slot(b, id).prev == slot(a, id).prev
            &&& slot(b, id).next == slot(a, id).next
            &&& slot(b, id).order.order_type == slot(a, id).order.order_type
            &&& slot(b, id).order.price == slot(a, id).order.price
            &&& slot(b, id).order.size == slot(a, id).order.size
        } by {
            assert(member_ok(a, l.price, OrderSide::Bid, l.queue@, k));
            assert(b[l.queue@[k] as int] is Some);
        }
        lemma_level_frame_fields(a, b, l, OrderSide::Bid);
    }
    assert forall|id: OrderId| #[trigger] holds(b, id) implies crate::state::l3_book::resting(
        if slot(b, id).order.spec_side() == OrderSide::Ask {
            asks
        } else {
            bids
        },
        id,
    ) by {
        assert(b[id as int] is Some);
        assert(holds(a, id));
    }
}

impl OrderBook {
    /// Brings every order up to `instant` that this makes expired, and hands
    /// those orders back as they stand afterwards, by ascending ID. Levels,
    /// queues and aggregate sizes are as before: an expired order keeps its
    /// place until it is removed.
    pub fn expire_orders(&mut self, instant: StateInstant) -> (r: Vec<Order>)
        requires
            old(self).wf(),
        ensures
            final(self).wf(),
            final(self)@ == old(self)@.expire(instant),
            r@ == old(self)@.expiring(instant, 65536),
            final(self).asks == old(self).asks,
            final(self).bids == old(self).bids,
    {
        let ghost slots0 = self.slots@;
        let ghost before = self@;
        let mut expired: Vec<Order> = Vec::new();
        let mut i: usize = 0;
        while i < self.slots.len()
            invariant
                0 <= i <= slots0.len(),
                slots0.len() <= 65536,
                self.asks == old(self).asks,
                self.bids == old(self).bids,
                before.orders == orders_of(slots0),
                expired_upto(slots0, self.slots@, instant, i as int),
                expired@ == before.expiring(instant, i as int),
            decreases slots0.len() - i,
        {
            let ghost slots_i = self.slots@;
            match self.slots[i] {
                Some(bo) => {
                    let mut order = bo.order;
                    proof {
                        assert(holds(slots0, i as OrderId));
                    }
                    if order.update_if_expired(instant) {
                        self.slots[i] = Some(BookOrder { order, prev: bo.prev, next: bo.next });
                        expired.push(order);
                    }
                },
                None => {},
            }
            proof {
                assert forall|j: int| 0 <= j < slots0.len() implies #[trigger] self.slots@[j] == (if j
                    < i + 1 {
                    match slots0[j] {
                        Some(bo) => Some(BookOrder { order: expired_at(bo.order, instant), ..bo }),
                        None => None,
                    }
                } else {
                    slots0[j]
                }) by {
                    assert(slots_i[j] == (if j < i {
                        match slots0[j] {
                            Some(bo) => Some(
                                BookOrder { order: expired_at(bo.order, instant), ..bo },
                            ),
                            None => None,
                        }
                    } else {
                        slots0[j]
                    }));
                }
            }
            i = i + 1;
        }
        proof {
            lemma_expired_wf(self.asks@, self.bids@, slots0, self.slots@, instant, i as int);
            assert(self@.orders =~= before.expire(instant).orders) by {
                assert forall|id: OrderId| holds(self.slots@, id) == holds(slots0, id) by {
                    if (id as int) < slots0.len() {
                        assert(self.slots@[id as int] is Some == slots0[id as int] is Some);
                    }
                }
                assert forall|id: OrderId| holds(slots0, id) implies slot(self.slots@, id).order
                    == expired_at(slot(slots0, id).order, instant) by {
                    assert(self.slots@[id as int] is Some);
                }
            }
            lemma_expiring_beyond(before, instant, i as int, 65536);
        }
        expired
    }
}

} // verus!
