//! Reading the book: levels, best prices, orders in priority order, and the
//! step that marks orders as expired.

use vstd::prelude::*;

use crate::num::Decimal;
use crate::state::l3_book::{
    holds, lemma_level_lookup, level_wf, member_ok, orders_of, queue_size, queues, search,
    side_wf, better, BookLevel, BookModel, BookOrder, OrderBook,
};
use crate::state::order::Order;
use crate::types::order::OrderSide;
use crate::types::OrderId;

verus! {

/// The sum of the sizes, in units, of the queue's orders that are not
/// expired.
pub open spec fn active_size(orders: Map<OrderId, Order>, q: Seq<OrderId>) -> nat
    decreases q.len(),
{
    if q.len() == 0 {
        0
    } else if orders[q.last()].spec_is_expired() {
        active_size(orders, q.drop_last())
    } else {
        active_size(orders, q.drop_last()) + orders[q.last()].size.units as nat
    }
}

/// The orders that the queue names, head first.
pub open spec fn queue_orders(orders: Map<OrderId, Order>, q: Seq<OrderId>) -> Seq<Order> {
    Seq::new(q.len(), |i: int| orders[q[i]])
}

/// The orders of the levels: level by level, each queue head first.
pub open spec fn levels_orders(orders: Map<OrderId, Order>, levels: Seq<BookLevel>) -> Seq<Order>
    decreases levels.len(),
{
    if levels.len() == 0 {
        Seq::empty()
    } else {
        levels_orders(orders, levels.drop_last()) + queue_orders(orders, levels.last().queue@)
    }
}

/// The orders of the queue that are to be shown: all of them, or only those
/// that are not expired.
pub open spec fn shown_orders(
    orders: Map<OrderId, Order>,
    q: Seq<OrderId>,
    show_expired: bool,
) -> Seq<Order>
    decreases q.len(),
{
    if q.len() == 0 {
        Seq::empty()
    } else if show_expired || !orders[q.last()].spec_is_expired() {
        shown_orders(orders, q.drop_last(), show_expired).push(orders[q.last()])
    } else {
        shown_orders(orders, q.drop_last(), show_expired)
    }
}

/// The orders that are not expired never weigh more than all orders, and a
/// part of the queue never more than the whole.
pub proof fn lemma_active_size_bound(orders: Map<OrderId, Order>, q: Seq<OrderId>, i: int)
    requires
        0 <= i <= q.len(),
    ensures
        active_size(orders, q.take(i)) <= queue_size(orders, q),
    decreases q.len(),
{
    if q.len() == 0 {
        assert(q.take(i) =~= q);
    } else if i == q.len() {
        assert(q.take(i) =~= q);
        assert(q.drop_last() =~= q.take(i - 1));
        lemma_active_size_bound(orders, q.drop_last(), i - 1);
        assert(q.drop_last().take(i - 1) =~= q.drop_last());
    } else {
        assert(q.drop_last().take(i) =~= q.take(i));
        lemma_active_size_bound(orders, q.drop_last(), i);
    }
}

/// What is shown of the first orders of a queue opens what is shown of the
/// whole queue.
pub proof fn lemma_shown_prefix(
    orders: Map<OrderId, Order>,
    q: Seq<OrderId>,
    show_expired: bool,
    i: int,
)
    requires
        0 <= i <= q.len(),
    ensures
        shown_orders(orders, q.take(i), show_expired).len() <= shown_orders(
            orders,
            q,
            show_expired,
        ).len(),
        shown_orders(orders, q, show_expired).take(
            shown_orders(orders, q.take(i), show_expired).len() as int,
        ) == shown_orders(orders, q.take(i), show_expired),
    decreases q.len(),
{
    if i == q.len() {
        assert(q.take(i) =~= q);
        let s = shown_orders(orders, q, show_expired);
        assert(s.take(s.len() as int) =~= s);
    } else {
        assert(q.drop_last().take(i) =~= q.take(i));
        lemma_shown_prefix(orders, q.drop_last(), show_expired, i);
        let part = shown_orders(orders, q.take(i), show_expired);
        let rest = shown_orders(orders, q.drop_last(), show_expired);
        let all = shown_orders(orders, q, show_expired);
        assert(all.take(part.len() as int) =~= rest.take(part.len() as int));
    }
}

impl BookModel {
    /// The aggregate size, in units, of the orders at a price of one side
    /// that are not expired.
    pub open spec fn active_level_size(&self, side: OrderSide, price: Decimal) -> nat {
        active_size(self.orders, self.queue(side, price))
    }

    /// Whether `price` is the best price of the side: the side has a level
    /// there with orders that are not expired and have size left, and has
    /// none such at any better price.
    pub open spec fn is_best(&self, side: OrderSide, price: Decimal) -> bool {
        &&& self.side(side).contains_key(price)
        &&& self.active_level_size(side, price) > 0
        &&& forall|p: Decimal|
            self.side(side).contains_key(p) && better(side, p, price)
                ==> #[trigger] self.active_level_size(side, p) == 0
    }

    /// Whether no level of the side has an order that is not expired and has
    /// size left.
    pub open spec fn no_best(&self, side: OrderSide) -> bool {
        forall|p: Decimal|
            self.side(side).contains_key(p) ==> #[trigger] self.active_level_size(side, p) == 0
    }
}

impl BookModel {
    /// The orders with an ID below `n`, by ascending ID.
    pub open spec fn listing(&self, n: int) -> Seq<Order>
        decreases n,
    {
        if n <= 0 {
            Seq::empty()
        } else if n <= 65536 && self.orders.contains_key((n - 1) as OrderId) {
            self.listing(n - 1).push(self.orders[(n - 1) as OrderId])
        } else {
            self.listing(n - 1)
        }
    }
}

/// The listing gains nothing beyond the IDs that the book holds.
pub proof fn lemma_listing_beyond(model: BookModel, n: int, m: int)
    requires
        0 <= n <= m,
        forall|id: OrderId| id >= n ==> !model.orders.contains_key(id),
    ensures
        model.listing(m) == model.listing(n),
    decreases m - n,
{
    if n < m {
        lemma_listing_beyond(model, n, m - 1);
    }
}

/// A side has at most one best price.
pub proof fn lemma_best_unique(model: BookModel, side: OrderSide, a: Decimal, b: Decimal)
    requires
        model.is_best(side, a),
        model.is_best(side, b),
    ensures
        a == b,
{
    if a != b {
        if better(side, a, b) {
            assert(model.active_level_size(side, a) == 0);
        } else {
            assert(better(side, b, a));
            assert(model.active_level_size(side, b) == 0);
        }
    }
}

/// The sum of the sizes of the level's orders that are not expired.
fn level_active_units(slots: &Vec<Option<BookOrder>>, level: &BookLevel, side: OrderSide) -> (r:
    u128)
    requires
        level_wf(slots@, *level, side),
    ensures
        r == active_size(orders_of(slots@), level.queue@),
{
    let ghost q = level.queue@;
    let ghost orders = orders_of(slots@);
    let mut cur = level.head;
    let mut acc: u128 = 0;
    let ghost mut i: int = 0;
    while cur.is_some()
        invariant
            level_wf(slots@, *level, side),
            q == level.queue@,
            orders == orders_of(slots@),
            0 <= i <= q.len(),
            cur == (if i < q.len() {
                Some(q[i])
            } else {
                None
            }),
            acc == active_size(orders, q.take(i)),
        decreases q.len() - i,
    {
        let id = cur.unwrap();
        proof {
            assert(member_ok(slots@, level.price, side, q, i));
            assert(q.take(i + 1).drop_last() =~= q.take(i));
            assert(q.take(i + 1).last() == q[i]);
            lemma_active_size_bound(orders, q, i + 1);
        }
        let bo = slots[id as usize].unwrap();
        if !bo.order.is_expired() {
            acc = acc + bo.order.size.units;
        }
        cur = bo.next;
        proof {
            i = i + 1;
        }
    }
    proof {
        assert(q.take(i) =~= q);
    }
    acc
}

/// The orders of the level, head first.
fn level_orders_of(slots: &Vec<Option<BookOrder>>, level: &BookLevel, side: OrderSide) -> (r: Vec<
    Order,
>)
    requires
        level_wf(slots@, *level, side),
    ensures
        r@ == queue_orders(orders_of(slots@), level.queue@),
{
    let ghost q = level.queue@;
    let ghost orders = orders_of(slots@);
    let mut cur = level.head;
    let mut acc: Vec<Order> = Vec::new();
    let ghost mut i: int = 0;
    while cur.is_some()
        invariant
            level_wf(slots@, *level, side),
            q == level.queue@,
            orders == orders_of(slots@),
            0 <= i <= q.len(),
            cur == (if i < q.len() {
                Some(q[i])
            } else {
                None
            }),
            acc@ == queue_orders(orders, q.take(i)),
        decreases q.len() - i,
    {
        let id = cur.unwrap();
        proof {
            assert(member_ok(slots@, level.price, side, q, i));
        }
        let bo = slots[id as usize].unwrap();
        acc.push(bo.order);
        cur = bo.next;
        proof {
            assert(acc@ =~= queue_orders(orders, q.take(i + 1)));
            i = i + 1;
        }
    }
    proof {
        assert(q.take(i) =~= q);
    }
    acc
}

/// The orders of the level that are to be shown, head first, up to `limit`
/// of them.
pub(crate) fn level_shown_orders(
    slots: &Vec<Option<BookOrder>>,
    level: &BookLevel,
    side: OrderSide,
    show_expired: bool,
    limit: usize,
) -> (r: Vec<Order>)
    requires
        level_wf(slots@, *level, side),
    ensures
        r@ == limited(shown_orders(orders_of(slots@), level.queue@, show_expired), limit),
{
    let ghost q = level.queue@;
    let ghost orders = orders_of(slots@);
    let mut cur = level.head;
    let mut acc: Vec<Order> = Vec::new();
    let ghost mut i: int = 0;
    while cur.is_some() && acc.len() < limit
        invariant
            level_wf(slots@, *level, side),
            q == level.queue@,
            orders == orders_of(slots@),
            0 <= i <= q.len(),
            cur == (if i < q.len() {
                Some(q[i])
            } else {
                None
            }),
            acc@ == shown_orders(orders, q.take(i), show_expired),
            acc@.len() <= limit,
        decreases q.len() - i,
    {
        let id = cur.unwrap();
        proof {
            assert(member_ok(slots@, level.price, side, q, i));
            assert(q.take(i + 1).drop_last() =~= q.take(i));
            assert(q.take(i + 1).last() == q[i]);
        }
        let bo = slots[id as usize].unwrap();
        if show_expired || !bo.order.is_expired() {
            acc.push(bo.order);
        }
        cur = bo.next;
        proof {
            i = i + 1;
        }
    }
    proof {
        lemma_shown_prefix(orders, q, show_expired, i);
        if i == q.len() {
            assert(q.take(i) =~= q);
            assert(acc@.take(acc@.len() as int) =~= acc@);
        }
    }
    acc
}

/// The first `limit` elements of the sequence, or all of it if it has fewer.
pub open spec fn limited<T>(s: Seq<T>, limit: usize) -> Seq<T> {
    if s.len() <= limit {
        s
    } else {
        s.take(limit as int)
    }
}

/// The first level, best price first, that has orders which are not expired
/// and have size left: its price and the size of those orders.
fn best_of(levels: &Vec<BookLevel>, slots: &Vec<Option<BookOrder>>, side: OrderSide) -> (r: Option<
    (Decimal, Decimal),
>)
    requires
        side_wf(levels@, side, slots@),
    ensures
        match r {
            Some((price, size)) => exists|i: int|
                0 <= i < levels@.len() && (#[trigger] levels@[i]).price == price && size.units
                    == active_size(orders_of(slots@), levels@[i].queue@) && size.units > 0 && forall|
                    j: int,
                |
                    0 <= j < i ==> active_size(orders_of(slots@), (#[trigger] levels@[j]).queue@)
                        == 0,
            None => forall|j: int|
                0 <= j < levels@.len() ==> active_size(
                    orders_of(slots@),
                    (#[trigger] levels@[j]).queue@,
                ) == 0,
        },
{
    let mut i: usize = 0;
    while i < levels.len()
        invariant
            side_wf(levels@, side, slots@),
            0 <= i <= levels@.len(),
            forall|j: int|
                0 <= j < i ==> active_size(orders_of(slots@), (#[trigger] levels@[j]).queue@) == 0,
        decreases levels@.len() - i,
    {
        assert(level_wf(slots@, levels@[i as int], side));
        let units = level_active_units(slots, &levels[i], side);
        if units > 0 {
            return Some((levels[i].price, Decimal { units }));
        }
        i = i + 1;
    }
    None
}

/// The orders of all levels, level by level, each queue head first.
fn side_orders_of(levels: &Vec<BookLevel>, slots: &Vec<Option<BookOrder>>, side: OrderSide) -> (r:
    Vec<Order>)
    requires
        side_wf(levels@, side, slots@),
    ensures
        r@ == levels_orders(orders_of(slots@), levels@),
{
    let mut acc: Vec<Order> = Vec::new();
    let mut i: usize = 0;
    while i < levels.len()
        invariant
            side_wf(levels@, side, slots@),
            0 <= i <= levels@.len(),
            acc@ == levels_orders(orders_of(slots@), levels@.take(i as int)),
        decreases levels@.len() - i,
    {
        assert(level_wf(slots@, levels@[i as int], side));
        let mut part = level_orders_of(slots, &levels[i], side);
        proof {
            assert(levels@.take(i + 1).drop_last() =~= levels@.take(i as int));
            assert(levels@.take(i + 1).last() == levels@[i as int]);
        }
        acc.append(&mut part);
        i = i + 1;
    }
    proof {
        assert(levels@.take(i as int) =~= levels@);
    }
    acc
}

/// What a level says of itself agrees with the book: it stands at `price`,
/// queues what the book queues there, counts the queue's orders and sums
/// their sizes.
pub open spec fn level_matches(model: BookModel, side: OrderSide, price: Decimal, level: BookLevel) -> bool {
    &&& level.price == price
    &&& level.queue@ == model.side(side)[price]
    &&& level.num_orders == model.side(side)[price].len()
    &&& level.size.units == model.level_size(side, price)
    &&& level.num_orders > 0
}

/// A level whose orders are all expired or without size is not at the best
/// price of its side.
pub proof fn lemma_expired_level_not_best(model: BookModel, side: OrderSide, price: Decimal)
    requires
        model.active_level_size(side, price) == 0,
    ensures
        !model.is_best(side, price),
{
}

impl OrderBook {
    /// Every level of the book stands for the queue at its price: its size
    /// is the sum of the sizes of the queue's orders, and its count of
    /// orders the queue's length.
    pub proof fn lemma_level_aggregates(&self, side: OrderSide, i: int)
        requires
            self.wf(),
            0 <= i < self.levels(side).len(),
        ensures
            self@.side(side).contains_key(self.levels(side)[i].price),
            level_matches(self@, side, self.levels(side)[i].price, self.levels(side)[i]),
    {
        let levels = self.levels(side);
        assert(self@.side(side) == queues(levels));
        lemma_level_lookup(levels, side, i);
        assert(level_wf(self.slots@, levels[i], side));
    }

    /// The level of one side at `price`, if the side has one.
    pub fn level(&self, side: OrderSide, price: Decimal) -> (r: Option<BookLevel>)
        requires
            self.wf(),
        ensures
            match r {
                Some(level) => self@.side(side).contains_key(price) && level_matches(
                    self@,
                    side,
                    price,
                    level,
                ),
                None => !self@.side(side).contains_key(price),
            },
    {
        match side {
            OrderSide::Ask => {
                let (idx, found) = search(&self.asks, side, price);
                if found {
                    proof {
                        lemma_level_lookup(self.asks@, side, idx as int);
                        assert(level_wf(self.slots@, self.asks@[idx as int], side));
                    }
                    Some(self.asks[idx])
                } else {
                    None
                }
            },
            OrderSide::Bid => {
                let (idx, found) = search(&self.bids, side, price);
                if found {
                    proof {
                        lemma_level_lookup(self.bids@, side, idx as int);
                        assert(level_wf(self.slots@, self.bids@[idx as int], side));
                    }
                    Some(self.bids[idx])
                } else {
                    None
                }
            },
        }
    }

    /// The ask level at `price`, if there is one.
    pub fn ask_level(&self, price: Decimal) -> (r: Option<BookLevel>)
        requires
            self.wf(),
        ensures
            match r {
                Some(level) => self@.asks.contains_key(price) && level_matches(
                    self@,
                    OrderSide::Ask,
                    price,
                    level,
                ),
                None => !self@.asks.contains_key(price),
            },
    {
        self.level(OrderSide::Ask, price)
    }

    /// The bid level at `price`, if there is one.
    pub fn bid_level(&self, price: Decimal) -> (r: Option<BookLevel>)
        requires
            self.wf(),
        ensures
            match r {
                Some(level) => self@.bids.contains_key(price) && level_matches(
                    self@,
                    OrderSide::Bid,
                    price,
                    level,
                ),
                None => !self@.bids.contains_key(price),
            },
    {
        self.level(OrderSide::Bid, price)
    }

    /// The ask levels, lowest price first.
    pub fn asks(&self) -> (r: &Vec<BookLevel>)
        ensures
            *r == self.asks,
    {
        &self.asks
    }

    /// The bid levels, highest price first.
    pub fn bids(&self) -> (r: &Vec<BookLevel>)
        ensures
            *r == self.bids,
    {
        &self.bids
    }

    /// The best price of a side with the size of its orders that are not
    /// expired; none where the side has no such orders with size left.
    pub fn best(&self, side: OrderSide) -> (r: Option<(Decimal, Decimal)>)
        requires
            self.wf(),
        ensures
            match r {
                Some((price, size)) => self@.is_best(side, price) && size.units
                    == self@.active_level_size(side, price),
                None => self@.no_best(side),
            },
    {
        let r = match side {
            OrderSide::Ask => best_of(&self.asks, &self.slots, side),
            OrderSide::Bid => best_of(&self.bids, &self.slots, side),
        };
        proof {
            let levels = self.levels(side);
            let orders = orders_of(self.slots@);
            assert(self@.side(side) == queues(levels));
            match r {
                Some((price, size)) => {
                    let i = choose|i: int|
                        0 <= i < levels.len() && (#[trigger] levels[i]).price == price && size.units
                            == active_size(orders, levels[i].queue@) && size.units > 0 && forall|
                            j: int,
                        |
                            0 <= j < i ==> active_size(orders, (#[trigger] levels[j]).queue@) == 0;
                    lemma_level_lookup(levels, side, i);
                    assert forall|p: Decimal|
                        self@.side(side).contains_key(p) && better(side, p, price) implies #[trigger] self@.active_level_size(
                        side,
                        p,
                    ) == 0 by {
                        let j = crate::state::l3_book::level_index(levels, p);
                        lemma_level_lookup(levels, side, j);
                        if j >= i {
                            if j > i {
                                assert(better(side, levels[i].price, levels[j].price));
                            }
                            assert(false);
                        }
                    }
                },
                None => {
                    assert forall|p: Decimal| self@.side(side).contains_key(p) implies #[trigger] self@.active_level_size(
                        side,
                        p,
                    ) == 0 by {
                        let j = crate::state::l3_book::level_index(levels, p);
                        lemma_level_lookup(levels, side, j);
                    }
                },
            }
        }
        r
    }

    /// Lowest ask price that has orders which are not expired, with the size
    /// of those orders.
    pub fn best_ask(&self) -> (r: Option<(Decimal, Decimal)>)
        requires
            self.wf(),
        ensures
            match r {
                Some((price, size)) => self@.is_best(OrderSide::Ask, price) && size.units
                    == self@.active_level_size(OrderSide::Ask, price),
                None => self@.no_best(OrderSide::Ask),
            },
    {
        self.best(OrderSide::Ask)
    }

    /// Highest bid price that has orders which are not expired, with the size
    /// of those orders.
    pub fn best_bid(&self) -> (r: Option<(Decimal, Decimal)>)
        requires
            self.wf(),
        ensures
            match r {
                Some((price, size)) => self@.is_best(OrderSide::Bid, price) && size.units
                    == self@.active_level_size(OrderSide::Bid, price),
                None => self@.no_best(OrderSide::Bid),
            },
    {
        self.best(OrderSide::Bid)
    }

    /// The orders of a level of this book, head first.
    pub fn level_orders(&self, side: OrderSide, price: Decimal) -> (r: Vec<Order>)
        requires
            self.wf(),
        ensures
            r@ == queue_orders(self@.orders, self@.queue(side, price)),
    {
        match side {
            OrderSide::Ask => {
                let (idx, found) = search(&self.asks, side, price);
                if found {
                    proof {
                        lemma_level_lookup(self.asks@, side, idx as int);
                        assert(level_wf(self.slots@, self.asks@[idx as int], side));
                    }
                    level_orders_of(&self.slots, &self.asks[idx], side)
                } else {
                    let r: Vec<Order> = Vec::new();
                    assert(r@ =~= queue_orders(self@.orders, self@.queue(side, price)));
                    r
                }
            },
            OrderSide::Bid => {
                let (idx, found) = search(&self.bids, side, price);
                if found {
                    proof {
                        lemma_level_lookup(self.bids@, side, idx as int);
                        assert(level_wf(self.slots@, self.bids@[idx as int], side));
                    }
                    level_orders_of(&self.slots, &self.bids[idx], side)
                } else {
                    let r: Vec<Order> = Vec::new();
                    assert(r@ =~= queue_orders(self@.orders, self@.queue(side, price)));
                    r
                }
            },
        }
    }

    /// All asks in priority order: lowest price first, and within a price
    /// the order that came first.
    pub fn ask_orders(&self) -> (r: Vec<Order>)
        requires
            self.wf(),
        ensures
            r@ == levels_orders(self@.orders, self.asks@),
    {
        side_orders_of(&self.asks, &self.slots, OrderSide::Ask)
    }

    /// All bids in priority order: highest price first, and within a price
    /// the order that came first.
    pub fn bid_orders(&self) -> (r: Vec<Order>)
        requires
            self.wf(),
        ensures
            r@ == levels_orders(self@.orders, self.bids@),
    {
        side_orders_of(&self.bids, &self.slots, OrderSide::Bid)
    }

    /// All orders of the book by ascending ID.
    pub fn orders(&self) -> (r: Vec<Order>)
        requires
            self.wf(),
        ensures
            r@ == self@.listing(65536),
    {
        let mut out: Vec<Order> = Vec::new();
        let mut i: usize = 0;
        while i < self.slots.len()
            invariant
                0 <= i <= self.slots@.len(),
                self.slots@.len() <= 65536,
                out@ == self@.listing(i as int),
            decreases self.slots@.len() - i,
        {
            match self.slots[i] {
                Some(b) => {
                    assert(holds(self.slots@, i as OrderId));
                    out.push(b.order);
                },
                None => {
                    assert(!holds(self.slots@, i as OrderId));
                },
            }
            i = i + 1;
        }
        proof {
            lemma_listing_beyond(self@, i as int, 65536);
        }
        out
    }

    /// The number of orders in the book's array that are in use: the largest
    /// order ID so far plus one.
    pub fn capacity(&self) -> (r: usize)
        ensures
            r == self.slots@.len(),
    {
        self.slots.len()
    }
}

} // verus!
