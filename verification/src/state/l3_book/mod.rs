//! Price-time-priority order book with per-order visibility.
//!
//! Each side of the book is a sequence of price levels, best price first.
//! The orders of a level form a FIFO queue: a doubly linked list whose links
//! are order IDs and whose nodes live in one array indexed by order ID, so
//! that an order is found, queued and unlinked in constant time.

pub mod crossing;
pub mod expiry;
pub mod order;
pub mod query;
pub mod rebuild;
pub mod view;

pub use order::BookOrder;
pub use view::{LevelView, OrderBookView, SideTotals};

use vstd::prelude::*;

use crate::num::Decimal;
use crate::state::order::Order;
use crate::types::order::OrderSide;
use crate::types::OrderId;

verus! {

/// Why the book refused an operation.
#[derive(Clone, Copy, Debug, PartialEq, Eq, Structural)]
pub enum BookError {
    /// The order carries the ID zero.
    InvalidOrderId,
    /// The book already holds an order with this ID.
    DuplicateOrderId(OrderId),
    /// The book holds no order with this ID.
    OrderNotFound(OrderId),
    /// The aggregate size of a price level would leave the range of the
    /// decimal type.
    SizeOverflow,
}

/// One price on one side of the book: the orders resting at it, as a FIFO
/// queue, with their count and aggregate size.
#[derive(Clone, Copy)]
pub struct BookLevel {
    pub price: Decimal,
    pub size: Decimal,
    pub num_orders: u32,
    pub head: Option<OrderId>,
    pub tail: Option<OrderId>,
    /// The IDs of the queue, head first.
    pub queue: Ghost<Seq<OrderId>>,
}

/// Per-order view of the book of one perpetual contract.
pub struct OrderBook {
    /// Ask levels, lowest price first.
    pub asks: Vec<BookLevel>,
    /// Bid levels, highest price first.
    pub bids: Vec<BookLevel>,
    /// The orders of the book, each at the index that is its ID.
    pub slots: Vec<Option<BookOrder>>,
}

/// The book as a mathematical value: its orders by ID, and for each side the
/// queue of order IDs at every price that has one.
pub struct BookModel {
    pub orders: Map<OrderId, Order>,
    pub asks: Map<Decimal, Seq<OrderId>>,
    pub bids: Map<Decimal, Seq<OrderId>>,
}

/// Whether price `a` comes before price `b` on the given side: lower for
/// asks, higher for bids.
pub open spec fn better(side: OrderSide, a: Decimal, b: Decimal) -> bool {
    match side {
        OrderSide::Ask => a.units < b.units,
        OrderSide::Bid => a.units > b.units,
    }
}

/// Whether price `a` comes before price `b` on the given side.
pub fn is_better(side: OrderSide, a: Decimal, b: Decimal) -> (r: bool)
    ensures
        r == better(side, a, b),
{
    match side {
        OrderSide::Ask => a.units < b.units,
        OrderSide::Bid => a.units > b.units,
    }
}

/// The levels run from the best price to the worst, each price once.
pub open spec fn sorted(levels: Seq<BookLevel>, side: OrderSide) -> bool {
    forall|i: int, j: int|
        0 <= i < j < levels.len() ==> better(side, #[trigger] levels[i].price, #[trigger] levels[j].price)
}

/// Whether the array holds an order at index `id`.
pub open spec fn holds(slots: Seq<Option<BookOrder>>, id: OrderId) -> bool {
    (id as int) < slots.len() && slots[id as int] is Some
}

/// The order at index `id`.
pub open spec fn slot(slots: Seq<Option<BookOrder>>, id: OrderId) -> BookOrder {
    slots[id as int].unwrap()
}

/// The orders that the array holds, by ID.
pub open spec fn orders_of(slots: Seq<Option<BookOrder>>) -> Map<OrderId, Order> {
    Map::new(|id: OrderId| holds(slots, id), |id: OrderId| slot(slots, id).order)
}

/// The sum of the sizes of the queue's orders, in units.
pub open spec fn queue_size(orders: Map<OrderId, Order>, q: Seq<OrderId>) -> nat
    decreases q.len(),
{
    if q.len() == 0 {
        0
    } else {
        queue_size(orders, q.drop_last()) + orders[q.last()].size.units as nat
    }
}

/// The `i`-th order of the queue `q` is in the array, belongs to the level by
/// side and price, and is linked to its neighbours in the queue.
pub open spec fn member_ok(
    slots: Seq<Option<BookOrder>>,
    price: Decimal,
    side: OrderSide,
    q: Seq<OrderId>,
    i: int,
) -> bool {
    let id = q[i];
    &&& holds(slots, id)
    &&& slot(slots, id).order.spec_side() == side
    &&& slot(slots, id).order.price == price
    &&& slot(slots, id).prev == (if i == 0 {
        None
    } else {
        Some(q[i - 1])
    })
    &&& slot(slots, id).next == (if i == q.len() - 1 {
        None
    } else {
        Some(q[i + 1])
    })
}

/// The level is consistent with the array of orders: its queue is not empty,
/// names each order once, starts at the head and ends at the tail; its count
/// is the queue's length and its size the sum of the queued orders' sizes.
pub open spec fn level_wf(slots: Seq<Option<BookOrder>>, level: BookLevel, side: OrderSide) -> bool {
    let q = level.queue@;
    &&& q.len() >= 1
    &&& q.len() == level.num_orders
    &&& q.no_duplicates()
    &&& level.head == Some(q[0])
    &&& level.tail == Some(q.last())
    &&& level.size.units == queue_size(orders_of(slots), q)
    &&& forall|i: int| 0 <= i < q.len() ==> #[trigger] member_ok(slots, level.price, side, q, i)
}

/// The queue `q` without the order `id`, which it names once.
pub open spec fn without(q: Seq<OrderId>, id: OrderId) -> Seq<OrderId> {
    q.remove(q.index_of(id))
}

/// Whether one of the levels queues the order `id`.
pub open spec fn resting(levels: Seq<BookLevel>, id: OrderId) -> bool {
    exists|i: int| 0 <= i < levels.len() && #[trigger] levels[i].queue@.contains(id)
}

/// Whether one of the levels stands at `price`.
pub open spec fn has_level(levels: Seq<BookLevel>, price: Decimal) -> bool {
    exists|i: int| 0 <= i < levels.len() && #[trigger] levels[i].price == price
}

/// The index of the level at `price`.
pub open spec fn level_index(levels: Seq<BookLevel>, price: Decimal) -> int {
    choose|i: int| 0 <= i < levels.len() && #[trigger] levels[i].price == price
}

/// The queues of the levels by price.
pub open spec fn queues(levels: Seq<BookLevel>) -> Map<Decimal, Seq<OrderId>> {
    Map::new(
        |p: Decimal| has_level(levels, p),
        |p: Decimal| levels[level_index(levels, p)].queue@,
    )
}

/// In sorted levels a price stands at one index only, so the queue found by
/// price is the queue of the level at that index.
pub proof fn lemma_level_lookup(levels: Seq<BookLevel>, side: OrderSide, i: int)
    requires
        sorted(levels, side),
        0 <= i < levels.len(),
    ensures
        has_level(levels, levels[i].price),
        level_index(levels, levels[i].price) == i,
        queues(levels).contains_key(levels[i].price),
        queues(levels)[levels[i].price] == levels[i].queue@,
{
    let p = levels[i].price;
    assert(0 <= i < levels.len() && levels[i].price == p);
    let j = level_index(levels, p);
    assert(0 <= j < levels.len() && levels[j].price == p);
    if j < i {
        assert(better(side, levels[j].price, levels[i].price));
    } else if i < j {
        assert(better(side, levels[i].price, levels[j].price));
    }
}

/// The sum of sizes does not change while the queued orders keep their size.
pub proof fn lemma_queue_size_frame(
    a: Map<OrderId, Order>,
    b: Map<OrderId, Order>,
    q: Seq<OrderId>,
)
    requires
        forall|i: int| 0 <= i < q.len() ==> a[#[trigger] q[i]].size == b[q[i]].size,
    ensures
        queue_size(a, q) == queue_size(b, q),
    decreases q.len(),
{
    if q.len() > 0 {
        let d = q.drop_last();
        assert forall|i: int| 0 <= i < d.len() implies a[#[trigger] d[i]].size == b[d[i]].size by {
            assert(d[i] == q[i]);
        }
        lemma_queue_size_frame(a, b, d);
        assert(q.last() == q[q.len() - 1]);
    }
}

/// Appending an order to a queue adds its size to the sum.
pub proof fn lemma_queue_size_push(orders: Map<OrderId, Order>, q: Seq<OrderId>, id: OrderId)
    ensures
        queue_size(orders, q.push(id)) == queue_size(orders, q) + orders[id].size.units,
{
    assert(q.push(id).drop_last() =~= q);
    assert(q.push(id).last() == id);
}

/// Taking the `k`-th order out of a queue takes its size off the sum.
pub proof fn lemma_queue_size_remove(orders: Map<OrderId, Order>, q: Seq<OrderId>, k: int)
    requires
        0 <= k < q.len(),
    ensures
        queue_size(orders, q.remove(k)) + orders[q[k]].size.units == queue_size(orders, q),
    decreases q.len(),
{
    if k == q.len() - 1 {
        assert(q.remove(k) =~= q.drop_last());
    } else {
        assert(q.remove(k).drop_last() =~= q.drop_last().remove(k));
        assert(q.remove(k).last() == q.last());
        lemma_queue_size_remove(orders, q.drop_last(), k);
    }
}

/// A level stays consistent while the orders it queues stay as they are.
pub proof fn lemma_level_frame(
    a: Seq<Option<BookOrder>>,
    b: Seq<Option<BookOrder>>,
    level: BookLevel,
    side: OrderSide,
)
    requires
        level_wf(a, level, side),
        forall|i: int|
            0 <= i < level.queue@.len() ==> holds(b, #[trigger] level.queue@[i]) && slot(
                b,
                level.queue@[i],
            ) == slot(a, level.queue@[i]),
    ensures
        level_wf(b, level, side),
{
    let q = level.queue@;
    assert forall|i: int| 0 <= i < q.len() implies orders_of(a)[#[trigger] q[i]].size == orders_of(
        b,
    )[q[i]].size by {
        assert(member_ok(a, level.price, side, q, i));
    }
    lemma_queue_size_frame(orders_of(a), orders_of(b), q);
    assert forall|i: int| 0 <= i < q.len() implies #[trigger] member_ok(
        b,
        level.price,
        side,
        q,
        i,
    ) by {
        assert(member_ok(a, level.price, side, q, i));
        assert(holds(b, q[i]));
    }
}

/// A queue that names no order twice is at most as long as there are IDs.
pub proof fn lemma_queue_len_bound(q: Seq<OrderId>)
    requires
        q.no_duplicates(),
    ensures
        q.len() <= 65536,
{
    let ints = q.map_values(|x: OrderId| x as int);
    assert(ints.no_duplicates()) by {
        assert forall|i: int, j: int| 0 <= i < ints.len() && 0 <= j < ints.len() && i != j implies ints[i]
            != ints[j] by {
            assert(q[i] != q[j]);
        }
    }
    ints.unique_seq_to_set();
    let all = vstd::set_lib::set_int_range(0, 65536);
    vstd::set_lib::lemma_int_range(0, 65536);
    assert(ints.to_set().subset_of(all)) by {
        assert forall|v: int| ints.to_set().contains(v) implies all.contains(v) by {
            let i = choose|i: int| 0 <= i < ints.len() && ints[i] == v;
            assert(ints[i] == q[i] as int);
        }
    }
    vstd::set_lib::lemma_len_subset(ints.to_set(), all);
}

/// Order IDs are the indices of the array and never zero.
pub open spec fn slots_wf(slots: Seq<Option<BookOrder>>) -> bool {
    &&& slots.len() <= 65536
    &&& forall|id: OrderId| #[trigger]
        holds(slots, id) ==> id != 0 && slot(slots, id).order.order_id == id
}

/// The levels of a side are sorted best price first, and each is consistent
/// with the orders it queues.
pub open spec fn side_wf(levels: Seq<BookLevel>, side: OrderSide, slots: Seq<Option<BookOrder>>) -> bool {
    &&& sorted(levels, side)
    &&& forall|i: int| 0 <= i < levels.len() ==> level_wf(slots, #[trigger] levels[i], side)
}

/// Every order rests in a level of its side, where `levels` are the levels
/// of `side` and `other` those of the opposite side.
pub open spec fn all_resting(
    levels: Seq<BookLevel>,
    other: Seq<BookLevel>,
    side: OrderSide,
    slots: Seq<Option<BookOrder>>,
) -> bool {
    forall|id: OrderId| #[trigger]
        holds(slots, id) ==> resting(
            if slot(slots, id).order.spec_side() == side {
                levels
            } else {
                other
            },
            id,
        )
}

impl BookLevel {
    /// The price of the level.
    pub fn price(&self) -> (r: Decimal)
        ensures
            r == self.price,
    {
        self.price
    }

    /// The aggregate size of the level's orders, expired ones included.
    pub fn size(&self) -> (r: Decimal)
        ensures
            r == self.size,
    {
        self.size
    }

    /// The number of orders in the level's queue.
    pub fn num_orders(&self) -> (r: u32)
        ensures
            r == self.num_orders,
    {
        self.num_orders
    }

    /// Whether the level queues no order.
    pub fn is_empty(&self) -> (r: bool)
        ensures
            r == (self.num_orders == 0),
    {
        self.num_orders == 0
    }

    /// The first order of the queue.
    pub fn head(&self) -> (r: Option<OrderId>)
        ensures
            r == self.head,
    {
        self.head
    }

    /// The last order of the queue.
    pub fn tail(&self) -> (r: Option<OrderId>)
        ensures
            r == self.tail,
    {
        self.tail
    }
}

impl View for OrderBook {
    type V = BookModel;

    open spec fn view(&self) -> BookModel {
        BookModel {
            orders: orders_of(self.slots@),
            asks: queues(self.asks@),
            bids: queues(self.bids@),
        }
    }
}

impl BookModel {
    /// The queues of one side by price.
    pub open spec fn side(&self, side: OrderSide) -> Map<Decimal, Seq<OrderId>> {
        match side {
            OrderSide::Ask => self.asks,
            OrderSide::Bid => self.bids,
        }
    }

    /// The model with the queues of one side replaced.
    pub open spec fn with_side(&self, side: OrderSide, q: Map<Decimal, Seq<OrderId>>) -> BookModel {
        match side {
            OrderSide::Ask => BookModel { asks: q, ..*self },
            OrderSide::Bid => BookModel { bids: q, ..*self },
        }
    }

    /// The queue at a price of one side; empty where the side has no level
    /// at that price.
    pub open spec fn queue(&self, side: OrderSide, price: Decimal) -> Seq<OrderId> {
        if self.side(side).contains_key(price) {
            self.side(side)[price]
        } else {
            Seq::empty()
        }
    }

    /// The aggregate size, in units, of the orders queued at a price of one
    /// side.
    pub open spec fn level_size(&self, side: OrderSide, price: Decimal) -> nat {
        queue_size(self.orders, self.queue(side, price))
    }

    /// The book after `order` has joined the tail of the queue at its price.
    pub open spec fn add(&self, order: Order) -> BookModel {
        let side = order.spec_side();
        BookModel {
            orders: self.orders.insert(order.order_id, order),
            ..self.with_side(
                side,
                self.side(side).insert(order.price, self.queue(side, order.price).push(order.order_id)),
            )
        }
    }

    /// The book after the order `id` has left its queue; a level whose queue
    /// becomes empty is gone.
    pub open spec fn remove(&self, id: OrderId) -> BookModel {
        let order = self.orders[id];
        let side = order.spec_side();
        let q = without(self.queue(side, order.price), id);
        BookModel {
            orders: self.orders.remove(id),
            ..self.with_side(
                side,
                if q.len() == 0 {
                    self.side(side).remove(order.price)
                } else {
                    self.side(side).insert(order.price, q)
                },
            )
        }
    }

    /// The book after the order under `order.order_id` has been replaced by
    /// `order`: in place while price and side stay, else by leaving its queue
    /// and joining the tail of the queue at the new price.
    pub open spec fn update(&self, order: Order) -> BookModel {
        let old = self.orders[order.order_id];
        if old.price == order.price && old.spec_side() == order.spec_side() {
            BookModel { orders: self.orders.insert(order.order_id, order), ..*self }
        } else {
            self.remove(order.order_id).add(order)
        }
    }
}

impl OrderBook {
    /// The levels of one side, best price first.
    pub open spec fn levels(&self, side: OrderSide) -> Seq<BookLevel> {
        match side {
            OrderSide::Ask => self.asks@,
            OrderSide::Bid => self.bids@,
        }
    }

    /// The book is consistent: order IDs are the indices of the array and
    /// never zero; both sides are sorted best price first; every level is
    /// consistent with the orders it queues; and every order rests in a level
    /// of its side.
    pub open spec fn wf(&self) -> bool {
        &&& slots_wf(self.slots@)
        &&& side_wf(self.asks@, OrderSide::Ask, self.slots@)
        &&& side_wf(self.bids@, OrderSide::Bid, self.slots@)
        &&& all_resting(self.asks@, self.bids@, OrderSide::Ask, self.slots@)
    }

    /// The book without orders.
    pub open spec fn spec_empty() -> BookModel {
        BookModel { orders: Map::empty(), asks: Map::empty(), bids: Map::empty() }
    }

    /// A copy of the book.
    pub fn duplicate(&self) -> (r: OrderBook)
        ensures
            r.asks@ == self.asks@,
            r.bids@ == self.bids@,
            r.slots@ == self.slots@,
            r@ == self@,
            r.wf() == self.wf(),
    {
        OrderBook { asks: self.asks.clone(), bids: self.bids.clone(), slots: self.slots.clone() }
    }

    /// Every order of the book carries the ID it is found under, which is
    /// not zero.
    pub proof fn lemma_order_id(&self, id: OrderId)
        requires
            self.wf(),
            self@.orders.contains_key(id),
        ensures
            id != 0,
            self@.orders[id].order_id == id,
    {
        assert(holds(self.slots@, id));
    }

    /// Every order of the book is queued at the level of its side and
    /// price.
    pub proof fn lemma_order_rests(&self, id: OrderId)
        requires
            self.wf(),
            self@.orders.contains_key(id),
        ensures
            self@.side(self@.orders[id].spec_side()).contains_key(self@.orders[id].price),
            self@.queue(self@.orders[id].spec_side(), self@.orders[id].price).contains(id),
    {
        let order = self@.orders[id];
        let side = order.spec_side();
        let levels = self.levels(side);
        assert(holds(self.slots@, id));
        lemma_all_resting_flip(self.asks@, self.bids@, self.slots@);
        assert(resting(levels, id));
        let i = choose|i: int| 0 <= i < levels.len() && #[trigger] levels[i].queue@.contains(id);
        assert(level_wf(self.slots@, levels[i], side));
        lemma_queued_order(self.slots@, levels[i], side, id);
        lemma_level_lookup(levels, side, i);
        assert(self@.side(side) == queues(levels));
    }

    /// An empty book.
    pub fn new() -> (r: OrderBook)
        ensures
            r.wf(),
            r@ == OrderBook::spec_empty(),
            r@.orders == Map::<OrderId, Order>::empty(),
            r@.asks == Map::<Decimal, Seq<OrderId>>::empty(),
            r@.bids == Map::<Decimal, Seq<OrderId>>::empty(),
    {
        let r = OrderBook { asks: Vec::new(), bids: Vec::new(), slots: Vec::new() };
        assert(r@.orders =~= Map::<OrderId, Order>::empty());
        assert(r@.asks =~= Map::<Decimal, Seq<OrderId>>::empty());
        assert(r@.bids =~= Map::<Decimal, Seq<OrderId>>::empty());
        r
    }

    /// The order with the given ID, if the book holds one.
    pub fn get_order(&self, id: OrderId) -> (r: Option<Order>)
        ensures
            r == (if self@.orders.contains_key(id) {
                Some(self@.orders[id])
            } else {
                None
            }),
    {
        if (id as usize) < self.slots.len() {
            match self.slots[id as usize] {
                Some(b) => Some(b.order),
                None => None,
            }
        } else {
            None
        }
    }

    /// Whether the book holds an order with the given ID.
    pub fn contains(&self, id: OrderId) -> (r: bool)
        ensures
            r == self@.orders.contains_key(id),
    {
        (id as usize) < self.slots.len() && self.slots[id as usize].is_some()
    }
}

/// Where a level at `price` stands among sorted levels, or would stand: the
/// index of the first level whose price is not better than `price`, and
/// whether that level is at `price`.
pub fn search(levels: &Vec<BookLevel>, side: OrderSide, price: Decimal) -> (r: (usize, bool))
    requires
        sorted(levels@, side),
    ensures
        r.0 <= levels@.len(),
        forall|i: int| 0 <= i < r.0 ==> better(side, #[trigger] levels@[i].price, price),
        forall|i: int| r.0 <= i < levels@.len() ==> !better(side, #[trigger] levels@[i].price, price),
        r.1 == (r.0 < levels@.len() && levels@[r.0 as int].price == price),
        r.1 == has_level(levels@, price),
{
    let mut lo: usize = 0;
    let mut hi: usize = levels.len();
    while lo < hi
        invariant
            lo <= hi <= levels@.len(),
            sorted(levels@, side),
            forall|i: int| 0 <= i < lo ==> better(side, #[trigger] levels@[i].price, price),
            forall|i: int| hi <= i < levels@.len() ==> !better(side, #[trigger] levels@[i].price, price),
        decreases hi - lo,
    {
        let mid = lo + (hi - lo) / 2;
        if is_better(side, levels[mid].price, price) {
            assert forall|i: int| 0 <= i < mid + 1 implies better(
                side,
                #[trigger] levels@[i].price,
                price,
            ) by {
                if i < mid {
                    assert(better(side, levels@[i].price, levels@[mid as int].price));
                }
            }
            lo = mid + 1;
        } else {
            assert forall|i: int| mid <= i < levels@.len() implies !better(
                side,
                #[trigger] levels@[i].price,
                price,
            ) by {
                if mid < i {
                    assert(better(side, levels@[mid as int].price, levels@[i].price));
                }
            }
            hi = mid;
        }
    }
    let found = lo < levels.len() && levels[lo].price.units == price.units;
    proof {
        if found {
            assert(0 <= lo < levels@.len() && levels@[lo as int].price == price);
        } else {
            assert forall|i: int| 0 <= i < levels@.len() implies #[trigger] levels@[i].price
                != price by {
                if i < lo {
                    assert(better(side, levels@[i].price, price));
                } else if i > lo {
                    assert(better(side, levels@[lo as int].price, levels@[i].price));
                    assert(!better(side, levels@[lo as int].price, price));
                }
            }
        }
    }
    (lo, found)
}

/// Replacing a level by one at the same price keeps the levels sorted and
/// changes the queue at that price only.
pub proof fn lemma_queues_update(levels: Seq<BookLevel>, side: OrderSide, idx: int, level: BookLevel)
    requires
        sorted(levels, side),
        0 <= idx < levels.len(),
        level.price == levels[idx].price,
    ensures
        sorted(levels.update(idx, level), side),
        queues(levels.update(idx, level)) == queues(levels).insert(level.price, level.queue@),
{
    let after = levels.update(idx, level);
    assert forall|i: int, j: int| 0 <= i < j < after.len() implies better(
        side,
        #[trigger] after[i].price,
        #[trigger] after[j].price,
    ) by {
        assert(better(side, levels[i].price, levels[j].price));
    }
    assert forall|p: Decimal| has_level(after, p) <==> has_level(levels, p) by {
        if has_level(after, p) {
            let i = level_index(after, p);
            assert(levels[i].price == p);
        }
        if has_level(levels, p) {
            let i = level_index(levels, p);
            assert(after[i].price == p);
        }
    }
    lemma_level_lookup(levels, side, idx);
    assert forall|p: Decimal| has_level(after, p) implies #[trigger] queues(after)[p] == queues(
        levels,
    ).insert(level.price, level.queue@)[p] by {
        let i = level_index(after, p);
        lemma_level_lookup(after, side, i);
        assert(levels[i].price == p);
        lemma_level_lookup(levels, side, i);
    }
    assert(queues(after) =~= queues(levels).insert(level.price, level.queue@));
}

/// Putting a level where its price belongs keeps the levels sorted and adds
/// its queue under its price.
pub proof fn lemma_queues_insert(levels: Seq<BookLevel>, side: OrderSide, idx: int, level: BookLevel)
    requires
        sorted(levels, side),
        0 <= idx <= levels.len(),
        forall|i: int| 0 <= i < idx ==> better(side, #[trigger] levels[i].price, level.price),
        forall|i: int| idx <= i < levels.len() ==> better(side, level.price, #[trigger] levels[i].price),
    ensures
        sorted(levels.insert(idx, level), side),
        !has_level(levels, level.price),
        queues(levels.insert(idx, level)) == queues(levels).insert(level.price, level.queue@),
{
    let after = levels.insert(idx, level);
    assert forall|i: int, j: int| 0 <= i < j < after.len() implies better(
        side,
        #[trigger] after[i].price,
        #[trigger] after[j].price,
    ) by {
        if i < idx && j > idx {
            assert(better(side, levels[i].price, levels[j - 1].price));
        } else if i < idx && j < idx {
            assert(better(side, levels[i].price, levels[j].price));
        } else if i > idx {
            assert(better(side, levels[i - 1].price, levels[j - 1].price));
        } else if i == idx {
            assert(better(side, level.price, levels[j - 1].price));
        } else {
            assert(better(side, levels[i].price, level.price));
        }
    }
    assert(!has_level(levels, level.price)) by {
        if has_level(levels, level.price) {
            let i = level_index(levels, level.price);
            if i < idx {
                assert(better(side, levels[i].price, level.price));
            } else {
                assert(better(side, level.price, levels[i].price));
            }
        }
    }
    assert forall|p: Decimal| has_level(after, p) <==> (has_level(levels, p) || p == level.price) by {
        if has_level(after, p) {
            let i = level_index(after, p);
            if i < idx {
                assert(levels[i].price == p);
            } else if i > idx {
                assert(levels[i - 1].price == p);
            }
        }
        if has_level(levels, p) {
            let i = level_index(levels, p);
            if i < idx {
                assert(after[i].price == p);
            } else {
                assert(after[i + 1].price == p);
            }
        }
        if p == level.price {
            assert(after[idx].price == p);
        }
    }
    assert forall|p: Decimal| has_level(after, p) implies #[trigger] queues(after)[p] == queues(
        levels,
    ).insert(level.price, level.queue@)[p] by {
        let i = level_index(after, p);
        lemma_level_lookup(after, side, i);
        if i < idx {
            assert(levels[i].price == p);
            lemma_level_lookup(levels, side, i);
        } else if i > idx {
            assert(levels[i - 1].price == p);
            lemma_level_lookup(levels, side, i - 1);
        }
    }
    assert(queues(after) =~= queues(levels).insert(level.price, level.queue@));
}

/// Taking a level out keeps the levels sorted and drops the queue at its
/// price.
pub proof fn lemma_queues_remove(levels: Seq<BookLevel>, side: OrderSide, idx: int)
    requires
        sorted(levels, side),
        0 <= idx < levels.len(),
    ensures
        sorted(levels.remove(idx), side),
        queues(levels.remove(idx)) == queues(levels).remove(levels[idx].price),
{
    let after = levels.remove(idx);
    let price = levels[idx].price;
    assert forall|i: int, j: int| 0 <= i < j < after.len() implies better(
        side,
        #[trigger] after[i].price,
        #[trigger] after[j].price,
    ) by {
        let a = if i < idx {
            i
        } else {
            i + 1
        };
        let b = if j < idx {
            j
        } else {
            j + 1
        };
        assert(better(side, levels[a].price, levels[b].price));
    }
    assert forall|p: Decimal| has_level(after, p) <==> (has_level(levels, p) && p != price) by {
        if has_level(after, p) {
            let i = level_index(after, p);
            let a = if i < idx {
                i
            } else {
                i + 1
            };
            assert(levels[a].price == p);
            if a < idx {
                assert(better(side, levels[a].price, levels[idx].price));
            } else {
                assert(better(side, levels[idx].price, levels[a].price));
            }
        }
        if has_level(levels, p) && p != price {
            let i = level_index(levels, p);
            if i < idx {
                assert(after[i].price == p);
            } else {
                assert(after[i - 1].price == p);
            }
        }
    }
    assert forall|p: Decimal| has_level(after, p) implies #[trigger] queues(after)[p] == queues(
        levels,
    ).remove(price)[p] by {
        let i = level_index(after, p);
        lemma_level_lookup(after, side, i);
        let a = if i < idx {
            i
        } else {
            i + 1
        };
        assert(levels[a].price == p);
        lemma_level_lookup(levels, side, a);
    }
    assert(queues(after) =~= queues(levels).remove(price));
}

/// An order that the array holds is queued by the level at its price, and
/// by no other level of the book.
pub proof fn lemma_resting_level(
    levels: Seq<BookLevel>,
    side: OrderSide,
    slots: Seq<Option<BookOrder>>,
    id: OrderId,
    idx: int,
)
    requires
        side_wf(levels, side, slots),
        resting(levels, id),
        holds(slots, id),
        0 <= idx < levels.len(),
        levels[idx].price == slot(slots, id).order.price,
    ensures
        levels[idx].queue@.contains(id),
        slot(slots, id).order.spec_side() == side,
{
    let i = choose|i: int| 0 <= i < levels.len() && #[trigger] levels[i].queue@.contains(id);
    let q = levels[i].queue@;
    let k = choose|k: int| 0 <= k < q.len() && q[k] == id;
    assert(level_wf(slots, levels[i], side));
    assert(member_ok(slots, levels[i].price, side, q, k));
    if i < idx {
        assert(better(side, levels[i].price, levels[idx].price));
    } else if idx < i {
        assert(better(side, levels[idx].price, levels[i].price));
    }
}

/// A level queues only orders of its own side and price.
pub proof fn lemma_queued_order(
    slots: Seq<Option<BookOrder>>,
    level: BookLevel,
    side: OrderSide,
    id: OrderId,
)
    requires
        level_wf(slots, level, side),
        level.queue@.contains(id),
    ensures
        holds(slots, id),
        slot(slots, id).order.spec_side() == side,
        slot(slots, id).order.price == level.price,
{
    let q = level.queue@;
    let k = choose|k: int| 0 <= k < q.len() && q[k] == id;
    assert(member_ok(slots, level.price, side, q, k));
}

/// Makes the array long enough to hold an order at index `id`; no entry
/// changes.
fn reserve_slot(slots: &mut Vec<Option<BookOrder>>, id: OrderId)
    requires
        old(slots)@.len() <= 65536,
    ensures
        final(slots)@.len() <= 65536,
        final(slots)@.len() > id,
        final(slots)@.len() >= old(slots)@.len(),
        forall|i: int| 0 <= i < old(slots)@.len() ==> final(slots)@[i] == old(slots)@[i],
        forall|i: int| old(slots)@.len() <= i < final(slots)@.len() ==> final(slots)@[i] is None,
{
    while slots.len() <= id as usize
        invariant
            slots@.len() <= 65536,
            slots@.len() >= old(slots)@.len(),
            forall|i: int| 0 <= i < old(slots)@.len() ==> slots@[i] == old(slots)@[i],
            forall|i: int| old(slots)@.len() <= i < slots@.len() ==> slots@[i] is None,
        decreases 65536 - slots@.len(),
    {
        slots.push(None);
    }
}

/// What [`OrderBook::add_order`] answers for `order`.
pub open spec fn add_check(model: BookModel, order: Order) -> Result<(), BookError> {
    if order.order_id == 0 {
        Err(BookError::InvalidOrderId)
    } else if model.orders.contains_key(order.order_id) {
        Err(BookError::DuplicateOrderId(order.order_id))
    } else if model.level_size(order.spec_side(), order.price) + order.size.units > u128::MAX {
        Err(BookError::SizeOverflow)
    } else {
        Ok(())
    }
}

/// Queues `order` at the tail of the level at its price among `levels`, the
/// levels of its side, and makes that level if there is none.
fn add_to_side(
    levels: &mut Vec<BookLevel>,
    other: &Vec<BookLevel>,
    slots: &mut Vec<Option<BookOrder>>,
    side: OrderSide,
    order: Order,
) -> (r: Result<(), BookError>)
    requires
        slots_wf(old(slots)@),
        side_wf(old(levels)@, side, old(slots)@),
        side_wf(other@, side.spec_opposite(), old(slots)@),
        all_resting(old(levels)@, other@, side, old(slots)@),
        order.spec_side() == side,
        order.order_id != 0,
        !holds(old(slots)@, order.order_id),
    ensures
        slots_wf(final(slots)@),
        side_wf(final(levels)@, side, final(slots)@),
        side_wf(other@, side.spec_opposite(), final(slots)@),
        all_resting(final(levels)@, other@, side, final(slots)@),
        r is Ok <==> queue_size(
            orders_of(old(slots)@),
            if has_level(old(levels)@, order.price) {
                queues(old(levels)@)[order.price]
            } else {
                Seq::empty()
            },
        ) + order.size.units <= u128::MAX,
        r is Err ==> r == Err::<(), BookError>(BookError::SizeOverflow) && final(levels)@ == old(
            levels,
        )@ && final(slots)@ == old(slots)@,
        r is Ok ==> r == Ok::<(), BookError>(()),
        r is Ok ==> orders_of(final(slots)@) == orders_of(old(slots)@).insert(order.order_id, order)
            && queues(final(levels)@) == queues(old(levels)@).insert(
            order.price,
            (if has_level(old(levels)@, order.price) {
                queues(old(levels)@)[order.price]
            } else {
                Seq::empty()
            }).push(order.order_id),
        ),
{
    let id = order.order_id;
    let ghost slots0 = slots@;
    let ghost levels0 = levels@;
    let (idx, found) = search(levels, side, order.price);
    if found {
        let level = levels[idx];
        proof {
            lemma_level_lookup(levels0, side, idx as int);
            assert(level_wf(slots0, levels0[idx as int], side));
        }
        let new_size = match level.size.checked_add(order.size) {
            Some(s) => s,
            None => {
                return Err(BookError::SizeOverflow);
            },
        };
        let ghost q = level.queue@;
        proof {
            lemma_queue_len_bound(q);
            assert(member_ok(slots0, level.price, side, q, q.len() - 1));
            if q.contains(id) {
                lemma_queued_order(slots0, level, side, id);
            }
        }
        let tail = level.tail.unwrap();
        reserve_slot(slots, id);
        let mut t = slots[tail as usize].unwrap();
        t.set_next(Some(id));
        slots[tail as usize] = Some(t);
        let mut queued = BookOrder::new(order);
        queued.set_prev(Some(tail));
        slots[id as usize] = Some(queued);
        let new_level = BookLevel {
            price: level.price,
            size: new_size,
            num_orders: level.num_orders + 1,
            head: level.head,
            tail: Some(id),
            queue: Ghost(q.push(id)),
        };
        levels[idx] = new_level;
        proof {
            let slots1 = slots@;
            let levels1 = levels@;
            let q1 = q.push(id);
            assert(levels1 =~= levels0.update(idx as int, new_level));
            lemma_queues_update(levels0, side, idx as int, new_level);
            assert(orders_of(slots1) =~= orders_of(slots0).insert(id, order));
            assert forall|x: OrderId| #[trigger] holds(slots1, x) implies x != 0 && slot(
                slots1,
                x,
            ).order.order_id == x by {
                if x != id {
                    assert(holds(slots0, x));
                }
            }
            // sizes
            assert forall|i: int| 0 <= i < q.len() implies orders_of(slots0)[#[trigger] q[i]].size
                == orders_of(slots1)[q[i]].size by {
                assert(member_ok(slots0, level.price, side, q, i));
            }
            lemma_queue_size_frame(orders_of(slots0), orders_of(slots1), q);
            lemma_queue_size_push(orders_of(slots1), q, id);
            // the level itself
            assert(q1.no_duplicates()) by {
                assert forall|i: int, j: int| 0 <= i < q1.len() && 0 <= j < q1.len() && i != j implies q1[i]
                    != q1[j] by {
                    if i < q.len() && j < q.len() {
                        assert(q[i] != q[j]);
                    } else if i < q.len() {
                        assert(q.contains(q[i]));
                    } else {
                        assert(q.contains(q[j]));
                    }
                }
            }
            assert forall|i: int| 0 <= i < q1.len() implies #[trigger] member_ok(
                slots1,
                new_level.price,
                side,
                q1,
                i,
            ) by {
                if i < q.len() {
                    assert(member_ok(slots0, level.price, side, q, i));
                    assert(q.contains(q[i]));
                    if i < q.len() - 1 {
                        assert(q[i] != q[q.len() - 1]);
                    }
                }
            }
            assert(level_wf(slots1, new_level, side));
            // the other levels of this side
            assert forall|i: int| 0 <= i < levels1.len() implies level_wf(
                slots1,
                #[trigger] levels1[i],
                side,
            ) by {
                if i != idx {
                    let l = levels0[i];
                    assert(level_wf(slots0, l, side));
                    assert forall|k: int| 0 <= k < l.queue@.len() implies holds(
                        slots1,
                        #[trigger] l.queue@[k],
                    ) && slot(slots1, l.queue@[k]) == slot(slots0, l.queue@[k]) by {
                        assert(member_ok(slots0, l.price, side, l.queue@, k));
                        if i < idx {
                            assert(better(side, levels0[i].price, levels0[idx as int].price));
                        } else {
                            assert(better(side, levels0[idx as int].price, levels0[i].price));
                        }
                    }
                    lemma_level_frame(slots0, slots1, l, side);
                }
            }
            // the levels of the other side
            assert forall|i: int| 0 <= i < other@.len() implies level_wf(
                slots1,
                #[trigger] other@[i],
                side.spec_opposite(),
            ) by {
                let l = other@[i];
                assert(level_wf(slots0, l, side.spec_opposite()));
                assert forall|k: int| 0 <= k < l.queue@.len() implies holds(
                    slots1,
                    #[trigger] l.queue@[k],
                ) && slot(slots1, l.queue@[k]) == slot(slots0, l.queue@[k]) by {
                    assert(member_ok(slots0, l.price, side.spec_opposite(), l.queue@, k));
                }
                lemma_level_frame(slots0, slots1, l, side.spec_opposite());
            }
            // every order rests
            assert forall|x: OrderId| #[trigger] holds(slots1, x) implies resting(
                if slot(slots1, x).order.spec_side() == side {
                    levels1
                } else {
                    other@
                },
                x,
            ) by {
                if x == id {
                    assert(q1[q.len() as int] == id);
                    assert(levels1[idx as int].queue@.contains(id));
                } else {
                    assert(holds(slots0, x));
                    assert(slot(slots1, x).order == slot(slots0, x).order);
                    if slot(slots0, x).order.spec_side() == side {
                        let i = choose|i: int|
                            0 <= i < levels0.len() && #[trigger] levels0[i].queue@.contains(x);
                        if i == idx {
                            let k = choose|k: int| 0 <= k < q.len() && q[k] == x;
                            assert(q1[k] == x);
                        }
                        assert(levels1[i].queue@.contains(x));
                    }
                }
            }
        }
        Ok(())
    } else {
        reserve_slot(slots, id);
        slots[id as usize] = Some(BookOrder::new(order));
        let new_level = BookLevel {
            price: order.price,
            size: order.size,
            num_orders: 1,
            head: Some(id),
            tail: Some(id),
            queue: Ghost(Seq::<OrderId>::empty().push(id)),
        };
        levels.insert(idx, new_level);
        proof {
            let slots1 = slots@;
            let levels1 = levels@;
            let q1 = Seq::<OrderId>::empty().push(id);
            assert(levels1 =~= levels0.insert(idx as int, new_level));
            assert forall|i: int| idx <= i < levels0.len() implies better(
                side,
                order.price,
                #[trigger] levels0[i].price,
            ) by {
                assert(levels0[i].price == order.price ==> has_level(levels0, order.price));
            }
            lemma_queues_insert(levels0, side, idx as int, new_level);
            assert(orders_of(slots1) =~= orders_of(slots0).insert(id, order));
            assert(queue_size(orders_of(slots0), Seq::<OrderId>::empty()) == 0);
            assert(queue_size(orders_of(slots1), Seq::<OrderId>::empty()) == 0);
            lemma_queue_size_push(orders_of(slots1), Seq::<OrderId>::empty(), id);
            assert(queue_size(orders_of(slots1), q1) == order.size.units);
            assert forall|x: OrderId| #[trigger] holds(slots1, x) implies x != 0 && slot(
                slots1,
                x,
            ).order.order_id == x by {
                if x != id {
                    assert(holds(slots0, x));
                }
            }
            assert(member_ok(slots1, new_level.price, side, q1, 0));
            assert(level_wf(slots1, new_level, side));
            assert forall|i: int| 0 <= i < levels1.len() implies level_wf(
                slots1,
                #[trigger] levels1[i],
                side,
            ) by {
                if i != idx {
                    let l = levels1[i];
                    let j = if i < idx {
                        i
                    } else {
                        i - 1
                    };
                    assert(l == levels0[j]);
                    assert(level_wf(slots0, levels0[j], side));
                    assert forall|k: int| 0 <= k < l.queue@.len() implies holds(
                        slots1,
                        #[trigger] l.queue@[k],
                    ) && slot(slots1, l.queue@[k]) == slot(slots0, l.queue@[k]) by {
                        assert(member_ok(slots0, l.price, side, l.queue@, k));
                    }
                    lemma_level_frame(slots0, slots1, l, side);
                }
            }
            assert forall|i: int| 0 <= i < other@.len() implies level_wf(
                slots1,
                #[trigger] other@[i],
                side.spec_opposite(),
            ) by {
                let l = other@[i];
                assert(level_wf(slots0, l, side.spec_opposite()));
                assert forall|k: int| 0 <= k < l.queue@.len() implies holds(
                    slots1,
                    #[trigger] l.queue@[k],
                ) && slot(slots1, l.queue@[k]) == slot(slots0, l.queue@[k]) by {
                    assert(member_ok(slots0, l.price, side.spec_opposite(), l.queue@, k));
                }
                lemma_level_frame(slots0, slots1, l, side.spec_opposite());
            }
            assert forall|x: OrderId| #[trigger] holds(slots1, x) implies resting(
                if slot(slots1, x).order.spec_side() == side {
                    levels1
                } else {
                    other@
                },
                x,
            ) by {
                if x == id {
                    assert(q1[0] == id);
                    assert(levels1[idx as int].queue@.contains(id));
                } else {
                    assert(holds(slots0, x));
                    assert(slot(slots1, x).order == slot(slots0, x).order);
                    if slot(slots0, x).order.spec_side() == side {
                        let i = choose|i: int|
                            0 <= i < levels0.len() && #[trigger] levels0[i].queue@.contains(x);
                        let j = if i < idx {
                            i
                        } else {
                            i + 1
                        };
                        assert(levels1[j] == levels0[i]);
                        assert(levels1[j].queue@.contains(x));
                    }
                }
            }
        }
        Ok(())
    }
}

impl OrderBook {
    /// Inserts `order` at the tail of the FIFO queue at its price level, and
    /// makes the level if the side has none at that price. An order ID of
    /// zero, an ID that the book already holds, or an aggregate size beyond
    /// the range of the decimal type is refused and leaves the book as it
    /// was.
    pub fn add_order(&mut self, order: Order) -> (r: Result<(), BookError>)
        requires
            old(self).wf(),
        ensures
            final(self).wf(),
            r == add_check(old(self)@, order),
            r is Ok ==> final(self)@ == old(self)@.add(order),
            r is Err ==> final(self)@ == old(self)@,
    {
        if order.order_id == 0 {
            return Err(BookError::InvalidOrderId);
        }
        if self.contains(order.order_id) {
            return Err(BookError::DuplicateOrderId(order.order_id));
        }
        let ghost before = self@;
        proof {
            assert(before.side(OrderSide::Ask) == queues(self.asks@));
            assert(before.side(OrderSide::Bid) == queues(self.bids@));
            assert(before.orders == orders_of(self.slots@));
        }
        match order.side() {
            OrderSide::Ask => {
                assert(before.queue(OrderSide::Ask, order.price) == (if has_level(
                    self.asks@,
                    order.price,
                ) {
                    queues(self.asks@)[order.price]
                } else {
                    Seq::empty()
                }));
                let r = add_to_side(&mut self.asks, &self.bids, &mut self.slots, OrderSide::Ask, order);
                proof {
                    assert(!before.orders.contains_key(order.order_id));
                    assert(r is Ok <==> before.level_size(OrderSide::Ask, order.price)
                        + order.size.units <= u128::MAX);
                    assert(r is Ok ==> r == Ok::<(), BookError>(()));
                    assert(add_check(before, order) is Ok <==> r is Ok);
                    if r is Ok {
                        assert(self@.orders == before.add(order).orders);
                        assert(self@.asks == before.add(order).asks);
                        assert(self@.bids == before.add(order).bids);
                    }
                }
                r
            },
            OrderSide::Bid => {
                proof {
                    lemma_all_resting_flip(self.asks@, self.bids@, self.slots@);
                }
                assert(before.queue(OrderSide::Bid, order.price) == (if has_level(
                    self.bids@,
                    order.price,
                ) {
                    queues(self.bids@)[order.price]
                } else {
                    Seq::empty()
                }));
                let r = add_to_side(&mut self.bids, &self.asks, &mut self.slots, OrderSide::Bid, order);
                proof {
                    lemma_all_resting_flip(self.asks@, self.bids@, self.slots@);
                    assert(!before.orders.contains_key(order.order_id));
                    assert(r is Ok <==> before.level_size(OrderSide::Bid, order.price)
                        + order.size.units <= u128::MAX);
                    assert(r is Ok ==> r == Ok::<(), BookError>(()));
                    assert(add_check(before, order) is Ok <==> r is Ok);
                    if r is Ok {
                        assert(self@.orders == before.add(order).orders);
                        assert(self@.asks == before.add(order).asks);
                        assert(self@.bids == before.add(order).bids);
                    }
                }
                r
            },
        }
    }
}

/// That every order rests in a level of its side can be said from either
/// side.
pub proof fn lemma_all_resting_flip(
    asks: Seq<BookLevel>,
    bids: Seq<BookLevel>,
    slots: Seq<Option<BookOrder>>,
)
    ensures
        all_resting(asks, bids, OrderSide::Ask, slots) <==> all_resting(
            bids,
            asks,
            OrderSide::Bid,
            slots,
        ),
{
    if all_resting(asks, bids, OrderSide::Ask, slots) {
        assert forall|id: OrderId| #[trigger] holds(slots, id) implies resting(
            if slot(slots, id).order.spec_side() == OrderSide::Bid {
                bids
            } else {
                asks
            },
            id,
        ) by {}
    }
    if all_resting(bids, asks, OrderSide::Bid, slots) {
        assert forall|id: OrderId| #[trigger] holds(slots, id) implies resting(
            if slot(slots, id).order.spec_side() == OrderSide::Ask {
                asks
            } else {
                bids
            },
            id,
        ) by {}
    }
}

/// The array after the order `id` has been taken out and its neighbours in
/// the queue have been linked to each other.
pub open spec fn unlinked(slots: Seq<Option<BookOrder>>, id: OrderId) -> Seq<Option<BookOrder>> {
    let bo = slot(slots, id);
    let s1 = match bo.prev {
        Some(p) => slots.update(p as int, Some(BookOrder { next: bo.next, ..slot(slots, p) })),
        None => slots,
    };
    let s2 = match bo.next {
        Some(n) => s1.update(n as int, Some(BookOrder { prev: bo.prev, ..slot(s1, n) })),
        None => s1,
    };
    s2.update(id as int, None)
}

/// The level after the `k`-th order of its queue has been unlinked.
pub open spec fn level_without(
    slots: Seq<Option<BookOrder>>,
    level: BookLevel,
    k: int,
) -> BookLevel {
    let q = level.queue@;
    let bo = slot(slots, q[k]);
    BookLevel {
        price: level.price,
        size: Decimal { units: (level.size.units - bo.order.size.units) as u128 },
        num_orders: (level.num_orders - 1) as u32,
        head: if k == 0 {
            bo.next
        } else {
            level.head
        },
        tail: if k == q.len() - 1 {
            bo.prev
        } else {
            level.tail
        },
        queue: Ghost(q.remove(k)),
    }
}

/// Takes the order `id` out of the array and links its neighbours to each
/// other.
fn unlink(slots: &mut Vec<Option<BookOrder>>, id: OrderId) -> (bo: BookOrder)
    requires
        holds(old(slots)@, id),
        slot(old(slots)@, id).prev matches Some(p) ==> holds(old(slots)@, p) && p != id,
        slot(old(slots)@, id).next matches Some(n) ==> holds(old(slots)@, n) && n != id,
    ensures
        bo == slot(old(slots)@, id),
        final(slots)@ == unlinked(old(slots)@, id),
{
    let bo = slots[id as usize].unwrap();
    match bo.prev {
        Some(p) => {
            let mut b = slots[p as usize].unwrap();
            b.set_next(bo.next);
            slots[p as usize] = Some(b);
        },
        None => {},
    }
    match bo.next {
        Some(n) => {
            let mut b = slots[n as usize].unwrap();
            b.set_prev(bo.prev);
            slots[n as usize] = Some(b);
        },
        None => {},
    }
    slots[id as usize] = None;
    assert(slots@ =~= unlinked(old(slots)@, id));
    bo
}

/// What unlinking the `k`-th order of a level's queue does to the array: the
/// order is gone, its neighbours in the queue point at each other, and every
/// other entry is as it was.
pub proof fn lemma_unlinked(
    slots: Seq<Option<BookOrder>>,
    level: BookLevel,
    side: OrderSide,
    k: int,
)
    requires
        level_wf(slots, level, side),
        0 <= k < level.queue@.len(),
    ensures
        ({
            let q = level.queue@;
            let after = unlinked(slots, q[k]);
            &&& after.len() == slots.len()
            &&& !holds(after, q[k])
            &&& forall|x: OrderId| #[trigger]
                holds(after, x) ==> x != q[k] && holds(slots, x) && slot(after, x).order == slot(
                    slots,
                    x,
                ).order
            &&& forall|x: OrderId| x != q[k] && #[trigger] holds(slots, x) ==> holds(after, x)
            &&& forall|x: OrderId|
                !q.contains(x) && (x as int) < slots.len() ==> #[trigger] after[x as int]
                    == slots[x as int]
            &&& forall|i: int|
                0 <= i < q.len() && i != k ==> slot(after, #[trigger] q[i]).prev == (if i == k + 1 {
                    slot(slots, q[k]).prev
                } else {
                    slot(slots, q[i]).prev
                }) && slot(after, q[i]).next == (if i == k - 1 {
                    slot(slots, q[k]).next
                } else {
                    slot(slots, q[i]).next
                })
        }),
{
    let q = level.queue@;
    let id = q[k];
    assert(member_ok(slots, level.price, side, q, k));
    if k > 0 {
        assert(member_ok(slots, level.price, side, q, k - 1));
        assert(q[k - 1] != q[k]);
    }
    if k < q.len() - 1 {
        assert(member_ok(slots, level.price, side, q, k + 1));
        assert(q[k + 1] != q[k]);
    }
    if 0 < k < q.len() - 1 {
        assert(q[k - 1] != q[k + 1]);
    }
    let after = unlinked(slots, id);
    assert forall|x: OrderId| !q.contains(x) && (x as int) < slots.len() implies #[trigger] after[x as int]
        == slots[x as int] by {
        if k > 0 {
            assert(q.contains(q[k - 1]));
        }
        if k < q.len() - 1 {
            assert(q.contains(q[k + 1]));
        }
        assert(q.contains(q[k]));
    }
    assert forall|i: int| 0 <= i < q.len() && i != k implies slot(after, #[trigger] q[i]).prev == (if i
        == k + 1 {
        slot(slots, q[k]).prev
    } else {
        slot(slots, q[i]).prev
    }) && slot(after, q[i]).next == (if i == k - 1 {
        slot(slots, q[k]).next
    } else {
        slot(slots, q[i]).next
    }) by {
        assert(member_ok(slots, level.price, side, q, i));
        assert(q[i] != q[k]);
        if k > 0 && i != k - 1 {
            assert(q[i] != q[k - 1]);
        }
        if k < q.len() - 1 && i != k + 1 {
            assert(q[i] != q[k + 1]);
        }
    }
}

/// Unlinking the `k`-th of two or more queued orders leaves a consistent
/// level.
pub proof fn lemma_unlink_level(
    slots: Seq<Option<BookOrder>>,
    level: BookLevel,
    side: OrderSide,
    k: int,
)
    requires
        level_wf(slots, level, side),
        0 <= k < level.queue@.len(),
        level.queue@.len() >= 2,
    ensures
        level.size.units >= slot(slots, level.queue@[k]).order.size.units,
        level_wf(unlinked(slots, level.queue@[k]), level_without(slots, level, k), side),
{
    let q = level.queue@;
    let id = q[k];
    let after = unlinked(slots, id);
    let new_level = level_without(slots, level, k);
    let q1 = q.remove(k);
    lemma_unlinked(slots, level, side, k);
    lemma_queue_size_remove(orders_of(slots), q, k);
    assert(member_ok(slots, level.price, side, q, k));
    assert(q1.no_duplicates()) by {
        assert forall|i: int, j: int| 0 <= i < q1.len() && 0 <= j < q1.len() && i != j implies q1[i]
            != q1[j] by {
            let a = if i < k {
                i
            } else {
                i + 1
            };
            let b = if j < k {
                j
            } else {
                j + 1
            };
            assert(q[a] != q[b]);
        }
    }
    assert forall|i: int| 0 <= i < q1.len() implies orders_of(slots)[#[trigger] q1[i]].size
        == orders_of(after)[q1[i]].size by {
        let a = if i < k {
            i
        } else {
            i + 1
        };
        assert(q1[i] == q[a]);
        assert(member_ok(slots, level.price, side, q, a));
        assert(q[a] != q[k]);
        assert(holds(after, q[a]));
    }
    lemma_queue_size_frame(orders_of(slots), orders_of(after), q1);
    assert forall|i: int| 0 <= i < q1.len() implies #[trigger] member_ok(
        after,
        new_level.price,
        side,
        q1,
        i,
    ) by {
        let a = if i < k {
            i
        } else {
            i + 1
        };
        assert(q1[i] == q[a]);
        assert(member_ok(slots, level.price, side, q, a));
        assert(q[a] != q[k]);
        assert(holds(after, q[a]));
    }
}

/// Unlinking an order leaves every level consistent that does not queue it.
pub proof fn lemma_unlink_frame(
    slots: Seq<Option<BookOrder>>,
    level: BookLevel,
    side: OrderSide,
    k: int,
    l: BookLevel,
    l_side: OrderSide,
)
    requires
        level_wf(slots, level, side),
        0 <= k < level.queue@.len(),
        level_wf(slots, l, l_side),
        l_side != side || l.price != level.price,
    ensures
        level_wf(unlinked(slots, level.queue@[k]), l, l_side),
{
    let q = level.queue@;
    let after = unlinked(slots, q[k]);
    lemma_unlinked(slots, level, side, k);
    assert forall|j: int| 0 <= j < l.queue@.len() implies holds(after, #[trigger] l.queue@[j]) && slot(
        after,
        l.queue@[j],
    ) == slot(slots, l.queue@[j]) by {
        assert(member_ok(slots, l.price, l_side, l.queue@, j));
        if q.contains(l.queue@[j]) {
            lemma_queued_order(slots, level, side, l.queue@[j]);
        }
    }
    lemma_level_frame(slots, after, l, l_side);
}

/// Unlinks the order `id` from its queue among `levels`, the levels of its
/// side, and drops the level if the queue becomes empty.
fn remove_from_side(
    levels: &mut Vec<BookLevel>,
    other: &Vec<BookLevel>,
    slots: &mut Vec<Option<BookOrder>>,
    side: OrderSide,
    id: OrderId,
) -> (r: Order)
    requires
        slots_wf(old(slots)@),
        side_wf(old(levels)@, side, old(slots)@),
        side_wf(other@, side.spec_opposite(), old(slots)@),
        all_resting(old(levels)@, other@, side, old(slots)@),
        holds(old(slots)@, id),
        slot(old(slots)@, id).order.spec_side() == side,
    ensures
        slots_wf(final(slots)@),
        side_wf(final(levels)@, side, final(slots)@),
        side_wf(other@, side.spec_opposite(), final(slots)@),
        all_resting(final(levels)@, other@, side, final(slots)@),
        r == slot(old(slots)@, id).order,
        orders_of(final(slots)@) == orders_of(old(slots)@).remove(id),
        has_level(old(levels)@, r.price),
        queues(old(levels)@)[r.price].contains(id),
        queues(final(levels)@) == (if without(queues(old(levels)@)[r.price], id).len() == 0 {
            queues(old(levels)@).remove(r.price)
        } else {
            queues(old(levels)@).insert(r.price, without(queues(old(levels)@)[r.price], id))
        }),
{
    let ghost slots0 = slots@;
    let ghost levels0 = levels@;
    let price = slots[id as usize].unwrap().order.price;
    let (idx, found) = search(levels, side, price);
    proof {
        assert(resting(levels0, id));
        let i = choose|i: int| 0 <= i < levels0.len() && #[trigger] levels0[i].queue@.contains(id);
        assert(level_wf(slots0, levels0[i], side));
        lemma_queued_order(slots0, levels0[i], side, id);
        lemma_resting_level(levels0, side, slots0, id, idx as int);
        lemma_level_lookup(levels0, side, idx as int);
        assert(level_wf(slots0, levels0[idx as int], side));
    }
    let level = levels[idx];
    let ghost q = level.queue@;
    let ghost k = q.index_of(id);
    proof {
        assert(0 <= k < q.len() && q[k] == id);
        assert(member_ok(slots0, level.price, side, q, k));
        if k > 0 {
            assert(member_ok(slots0, level.price, side, q, k - 1));
            assert(q[k - 1] != q[k]);
        }
        if k < q.len() - 1 {
            assert(member_ok(slots0, level.price, side, q, k + 1));
            assert(q[k + 1] != q[k]);
        }
        lemma_unlinked(slots0, level, side, k);
    }
    let bo = unlink(slots, id);
    let ghost slots1 = slots@;
    proof {
        assert(orders_of(slots1) =~= orders_of(slots0).remove(id));
        assert forall|x: OrderId| #[trigger] holds(slots1, x) implies x != 0 && slot(
            slots1,
            x,
        ).order.order_id == x by {
            assert(holds(slots0, x));
        }
        assert forall|i: int| 0 <= i < levels0.len() && i != idx implies level_wf(
            slots1,
            #[trigger] levels0[i],
            side,
        ) by {
            assert(level_wf(slots0, levels0[i], side));
            if i < idx {
                assert(better(side, levels0[i].price, levels0[idx as int].price));
            } else {
                assert(better(side, levels0[idx as int].price, levels0[i].price));
            }
            lemma_unlink_frame(slots0, level, side, k, levels0[i], side);
        }
        assert forall|i: int| 0 <= i < other@.len() implies level_wf(
            slots1,
            #[trigger] other@[i],
            side.spec_opposite(),
        ) by {
            assert(level_wf(slots0, other@[i], side.spec_opposite()));
            lemma_unlink_frame(slots0, level, side, k, other@[i], side.spec_opposite());
        }
    }
    if level.num_orders == 1 {
        levels.remove(idx);
        proof {
            let levels1 = levels@;
            assert(levels1 =~= levels0.remove(idx as int));
            lemma_queues_remove(levels0, side, idx as int);
            assert(q.remove(k).len() == 0);
            assert forall|i: int| 0 <= i < levels1.len() implies level_wf(
                slots1,
                #[trigger] levels1[i],
                side,
            ) by {
                let j = if i < idx {
                    i
                } else {
                    i + 1
                };
                assert(levels1[i] == levels0[j]);
            }
            lemma_resting_after_remove(levels0, levels1, other@, slots0, slots1, side, idx as int, id);
        }
    } else {
        proof {
            lemma_unlink_level(slots0, level, side, k);
        }
        let new_level = BookLevel {
            price: level.price,
            size: Decimal { units: level.size.units - bo.order.size.units },
            num_orders: level.num_orders - 1,
            head: if bo.prev.is_none() {
                bo.next
            } else {
                level.head
            },
            tail: if bo.next.is_none() {
                bo.prev
            } else {
                level.tail
            },
            queue: Ghost(q.remove(k)),
        };
        assert(new_level == level_without(slots0, level, k));
        levels[idx] = new_level;
        proof {
            let levels1 = levels@;
            assert(levels1 =~= levels0.update(idx as int, new_level));
            lemma_queues_update(levels0, side, idx as int, new_level);
            assert forall|i: int| 0 <= i < levels1.len() implies level_wf(
                slots1,
                #[trigger] levels1[i],
                side,
            ) by {
                if i != idx {
                    assert(levels1[i] == levels0[i]);
                }
            }
            lemma_resting_after_update(levels0, levels1, other@, slots0, slots1, side, idx as int, id);
        }
    }
    bo.order
}

/// After an order has left a queue of two or more, every other order still
/// rests where it did.
pub proof fn lemma_resting_after_update(
    levels0: Seq<BookLevel>,
    levels1: Seq<BookLevel>,
    other: Seq<BookLevel>,
    slots0: Seq<Option<BookOrder>>,
    slots1: Seq<Option<BookOrder>>,
    side: OrderSide,
    idx: int,
    id: OrderId,
)
    requires
        all_resting(levels0, other, side, slots0),
        0 <= idx < levels0.len(),
        levels1.len() == levels0.len(),
        forall|i: int| 0 <= i < levels0.len() && i != idx ==> levels1[i] == levels0[i],
        levels0[idx].queue@.contains(id),
        levels1[idx].queue@ == without(levels0[idx].queue@, id),
        forall|x: OrderId| #[trigger]
            holds(slots1, x) ==> x != id && holds(slots0, x) && slot(slots1, x).order == slot(
                slots0,
                x,
            ).order,
    ensures
        all_resting(levels1, other, side, slots1),
{
    let q = levels0[idx].queue@;
    let k = q.index_of(id);
    let q1 = q.remove(k);
    assert forall|x: OrderId| #[trigger] holds(slots1, x) implies resting(
        if slot(slots1, x).order.spec_side() == side {
            levels1
        } else {
            other
        },
        x,
    ) by {
        assert(holds(slots0, x));
        if slot(slots0, x).order.spec_side() == side {
            let i = choose|i: int| 0 <= i < levels0.len() && #[trigger] levels0[i].queue@.contains(x);
            if i == idx {
                let j = choose|j: int| 0 <= j < q.len() && q[j] == x;
                let b = if j < k {
                    j
                } else {
                    j - 1
                };
                assert(q1[b] == x);
            }
            assert(levels1[i].queue@.contains(x));
        }
    }
}

/// After the only order of a level has left and the level is gone, every
/// other order still rests where it did.
pub proof fn lemma_resting_after_remove(
    levels0: Seq<BookLevel>,
    levels1: Seq<BookLevel>,
    other: Seq<BookLevel>,
    slots0: Seq<Option<BookOrder>>,
    slots1: Seq<Option<BookOrder>>,
    side: OrderSide,
    idx: int,
    id: OrderId,
)
    requires
        all_resting(levels0, other, side, slots0),
        0 <= idx < levels0.len(),
        levels1 == levels0.remove(idx),
        levels0[idx].queue@.len() == 1,
        levels0[idx].queue@[0] == id,
        forall|x: OrderId| #[trigger]
            holds(slots1, x) ==> x != id && holds(slots0, x) && slot(slots1, x).order == slot(
                slots0,
                x,
            ).order,
    ensures
        all_resting(levels1, other, side, slots1),
{
    assert forall|x: OrderId| #[trigger] holds(slots1, x) implies resting(
        if slot(slots1, x).order.spec_side() == side {
            levels1
        } else {
            other
        },
        x,
    ) by {
        assert(holds(slots0, x));
        if slot(slots0, x).order.spec_side() == side {
            let i = choose|i: int| 0 <= i < levels0.len() && #[trigger] levels0[i].queue@.contains(x);
            if i == idx {
                let j = choose|j: int|
                    0 <= j < levels0[idx].queue@.len() && levels0[idx].queue@[j] == x;
                assert(false);
            }
            let j = if i < idx {
                i
            } else {
                i - 1
            };
            assert(levels1[j] == levels0[i]);
            assert(levels1[j].queue@.contains(x));
        }
    }
}

impl OrderBook {
    /// Unlinks the order `id` from its level and hands it back; the level is
    /// deleted if it becomes empty. An ID that the book does not hold is
    /// refused.
    pub fn remove_order(&mut self, id: OrderId) -> (r: Result<Order, BookError>)
        requires
            old(self).wf(),
        ensures
            final(self).wf(),
            old(self)@.orders.contains_key(id) ==> r == Ok::<Order, BookError>(
                old(self)@.orders[id],
            ) && final(self)@ == old(self)@.remove(id),
            !old(self)@.orders.contains_key(id) ==> r == Err::<Order, BookError>(
                BookError::OrderNotFound(id),
            ) && final(self)@ == old(self)@,
    {
        if !self.contains(id) {
            return Err(BookError::OrderNotFound(id));
        }
        let ghost before = self@;
        let side = self.slots[id as usize].unwrap().order.side();
        match side {
            OrderSide::Ask => {
                let order = remove_from_side(
                    &mut self.asks,
                    &self.bids,
                    &mut self.slots,
                    OrderSide::Ask,
                    id,
                );
                proof {
                    assert(before.queue(OrderSide::Ask, order.price) == before.asks[order.price]);
                    assert(self@.orders == before.remove(id).orders);
                    assert(self@.asks == before.remove(id).asks);
                    assert(self@.bids == before.remove(id).bids);
                }
                Ok(order)
            },
            OrderSide::Bid => {
                proof {
                    lemma_all_resting_flip(self.asks@, self.bids@, self.slots@);
                }
                let order = remove_from_side(
                    &mut self.bids,
                    &self.asks,
                    &mut self.slots,
                    OrderSide::Bid,
                    id,
                );
                proof {
                    lemma_all_resting_flip(self.asks@, self.bids@, self.slots@);
                    assert(before.queue(OrderSide::Bid, order.price) == before.bids[order.price]);
                    assert(self@.orders == before.remove(id).orders);
                    assert(self@.asks == before.remove(id).asks);
                    assert(self@.bids == before.remove(id).bids);
                }
                Ok(order)
            },
        }
    }
}

/// A queue that does not name an order sums to the same size whether or not
/// the order is among the orders.
pub proof fn lemma_queue_size_without(orders: Map<OrderId, Order>, q: Seq<OrderId>, id: OrderId)
    requires
        !q.contains(id),
    ensures
        queue_size(orders.remove(id), q) == queue_size(orders, q),
{
    assert forall|i: int| 0 <= i < q.len() implies orders.remove(id)[#[trigger] q[i]].size
        == orders[q[i]].size by {
        assert(q.contains(q[i]));
    }
    lemma_queue_size_frame(orders.remove(id), orders, q);
}

/// What [`OrderBook::update_order`] answers for `order`.
pub open spec fn update_check(model: BookModel, order: Order) -> Result<(), BookError> {
    if !model.orders.contains_key(order.order_id) {
        Err(BookError::OrderNotFound(order.order_id))
    } else {
        let old = model.orders[order.order_id];
        let side = order.spec_side();
        if old.price == order.price && old.spec_side() == side {
            if model.level_size(side, order.price) - old.size.units + order.size.units > u128::MAX {
                Err(BookError::SizeOverflow)
            } else {
                Ok(())
            }
        } else if model.level_size(side, order.price) + order.size.units > u128::MAX {
            Err(BookError::SizeOverflow)
        } else {
            Ok(())
        }
    }
}

/// Replaces the order under `order.order_id`, which rests among `levels` at
/// the price of `order`, and adjusts the level's size.
fn replace_in_side(
    levels: &mut Vec<BookLevel>,
    other: &Vec<BookLevel>,
    slots: &mut Vec<Option<BookOrder>>,
    side: OrderSide,
    order: Order,
) -> (r: Result<(), BookError>)
    requires
        slots_wf(old(slots)@),
        side_wf(old(levels)@, side, old(slots)@),
        side_wf(other@, side.spec_opposite(), old(slots)@),
        all_resting(old(levels)@, other@, side, old(slots)@),
        holds(old(slots)@, order.order_id),
        slot(old(slots)@, order.order_id).order.spec_side() == side,
        slot(old(slots)@, order.order_id).order.price == order.price,
        order.spec_side() == side,
    ensures
        slots_wf(final(slots)@),
        side_wf(final(levels)@, side, final(slots)@),
        side_wf(other@, side.spec_opposite(), final(slots)@),
        all_resting(final(levels)@, other@, side, final(slots)@),
        has_level(old(levels)@, order.price),
        queues(final(levels)@) == queues(old(levels)@),
        r is Ok <==> queue_size(orders_of(old(slots)@), queues(old(levels)@)[order.price]) - slot(
            old(slots)@,
            order.order_id,
        ).order.size.units + order.size.units <= u128::MAX,
        r is Ok ==> r == Ok::<(), BookError>(()),
        r is Err ==> r == Err::<(), BookError>(BookError::SizeOverflow) && final(levels)@ == old(
            levels,
        )@ && final(slots)@ == old(slots)@,
        r is Ok ==> orders_of(final(slots)@) == orders_of(old(slots)@).insert(order.order_id, order),
{
    let id = order.order_id;
    let ghost slots0 = slots@;
    let ghost levels0 = levels@;
    let (idx, found) = search(levels, side, order.price);
    proof {
        assert(resting(levels0, id));
        let i = choose|i: int| 0 <= i < levels0.len() && #[trigger] levels0[i].queue@.contains(id);
        assert(level_wf(slots0, levels0[i], side));
        lemma_queued_order(slots0, levels0[i], side, id);
        lemma_resting_level(levels0, side, slots0, id, idx as int);
        lemma_level_lookup(levels0, side, idx as int);
        assert(level_wf(slots0, levels0[idx as int], side));
    }
    let level = levels[idx];
    let ghost q = level.queue@;
    let ghost k = q.index_of(id);
    let bo = slots[id as usize].unwrap();
    proof {
        assert(0 <= k < q.len() && q[k] == id);
        lemma_queue_size_remove(orders_of(slots0), q, k);
    }
    let rest: u128 = level.size.units - bo.order.size.units;
    let new_size = match rest.checked_add(order.size.units) {
        Some(units) => Decimal { units },
        None => {
            return Err(BookError::SizeOverflow);
        },
    };
    let mut replaced = bo;
    replaced.update_order(order);
    slots[id as usize] = Some(replaced);
    let new_level = BookLevel {
        price: level.price,
        size: new_size,
        num_orders: level.num_orders,
        head: level.head,
        tail: level.tail,
        queue: Ghost(q),
    };
    levels[idx] = new_level;
    proof {
        let slots1 = slots@;
        let levels1 = levels@;
        assert(levels1 =~= levels0.update(idx as int, new_level));
        lemma_queues_update(levels0, side, idx as int, new_level);
        assert(queues(levels1) =~= queues(levels0));
        assert(orders_of(slots1) =~= orders_of(slots0).insert(id, order));
        assert forall|x: OrderId| #[trigger] holds(slots1, x) implies x != 0 && slot(
            slots1,
            x,
        ).order.order_id == x by {
            assert(holds(slots0, x));
            if x == id {
                assert(member_ok(slots0, level.price, side, q, k));
            }
        }
        // the level's size
        lemma_queue_size_remove(orders_of(slots1), q, k);
        let q1 = q.remove(k);
        assert forall|i: int| 0 <= i < q1.len() implies orders_of(slots0)[#[trigger] q1[i]].size
            == orders_of(slots1)[q1[i]].size by {
            let a = if i < k {
                i
            } else {
                i + 1
            };
            assert(q1[i] == q[a]);
            assert(member_ok(slots0, level.price, side, q, a));
            assert(q[a] != q[k]);
        }
        lemma_queue_size_frame(orders_of(slots0), orders_of(slots1), q1);
        assert forall|i: int| 0 <= i < q.len() implies #[trigger] member_ok(
            slots1,
            new_level.price,
            side,
            q,
            i,
        ) by {
            assert(member_ok(slots0, level.price, side, q, i));
        }
        assert(level_wf(slots1, new_level, side));
        assert forall|i: int| 0 <= i < levels1.len() implies level_wf(
            slots1,
            #[trigger] levels1[i],
            side,
        ) by {
            if i != idx {
                let l = levels0[i];
                assert(level_wf(slots0, l, side));
                assert forall|j: int| 0 <= j < l.queue@.len() implies holds(
                    slots1,
                    #[trigger] l.queue@[j],
                ) && slot(slots1, l.queue@[j]) == slot(slots0, l.queue@[j]) by {
                    assert(member_ok(slots0, l.price, side, l.queue@, j));
                    if i < idx {
                        assert(better(side, levels0[i].price, levels0[idx as int].price));
                    } else {
                        assert(better(side, levels0[idx as int].price, levels0[i].price));
                    }
                }
                lemma_level_frame(slots0, slots1, l, side);
            }
        }
        assert forall|i: int| 0 <= i < other@.len() implies level_wf(
            slots1,
            #[trigger] other@[i],
            side.spec_opposite(),
        ) by {
            let l = other@[i];
            assert(level_wf(slots0, l, side.spec_opposite()));
            assert forall|j: int| 0 <= j < l.queue@.len() implies holds(
                slots1,
                #[trigger] l.queue@[j],
            ) && slot(slots1, l.queue@[j]) == slot(slots0, l.queue@[j]) by {
                assert(member_ok(slots0, l.price, side.spec_opposite(), l.queue@, j));
            }
            lemma_level_frame(slots0, slots1, l, side.spec_opposite());
        }
        assert forall|x: OrderId| #[trigger] holds(slots1, x) implies resting(
            if slot(slots1, x).order.spec_side() == side {
                levels1
            } else {
                other@
            },
            x,
        ) by {
            assert(holds(slots0, x));
            if slot(slots0, x).order.spec_side() == side {
                let i = choose|i: int|
                    0 <= i < levels0.len() && #[trigger] levels0[i].queue@.contains(x);
                assert(levels1[i].queue@.contains(x));
            }
        }
    }
    Ok(())
}

impl OrderBook {
    /// The aggregate size of the level at `price` on `side`, in units; zero
    /// where there is no such level.
    fn level_units(&self, side: OrderSide, price: Decimal) -> (r: u128)
        requires
            self.wf(),
        ensures
            r == self@.level_size(side, price),
    {
        match side {
            OrderSide::Ask => {
                let (idx, found) = search(&self.asks, side, price);
                if found {
                    proof {
                        lemma_level_lookup(self.asks@, side, idx as int);
                        assert(level_wf(self.slots@, self.asks@[idx as int], side));
                    }
                    self.asks[idx].size.units
                } else {
                    0
                }
            },
            OrderSide::Bid => {
                let (idx, found) = search(&self.bids, side, price);
                if found {
                    proof {
                        lemma_level_lookup(self.bids@, side, idx as int);
                        assert(level_wf(self.slots@, self.bids@[idx as int], side));
                    }
                    self.bids[idx].size.units
                } else {
                    0
                }
            },
        }
    }

    /// The queue at a price of a side names only orders of that side and
    /// price.
    pub proof fn lemma_queue_members(&self, side: OrderSide, price: Decimal, id: OrderId)
        requires
            self.wf(),
            self@.queue(side, price).contains(id),
        ensures
            self@.orders.contains_key(id),
            self@.orders[id].spec_side() == side,
            self@.orders[id].price == price,
    {
        let levels = self.levels(side);
        assert(self@.side(side) == queues(levels));
        assert(has_level(levels, price));
        let i = level_index(levels, price);
        assert(level_wf(self.slots@, levels[i], side));
        lemma_queued_order(self.slots@, levels[i], side, id);
    }

    /// Replaces the order under `order.order_id` by `order`. While price and
    /// side stay, the order keeps its place in the queue and the level's size
    /// follows the order's; otherwise the order leaves its queue and joins
    /// the tail of the queue at its new price. An ID that the book does not
    /// hold, or a level size beyond the range of the decimal type, is refused
    /// and leaves the book as it was.
    pub fn update_order(&mut self, order: Order) -> (r: Result<(), BookError>)
        requires
            old(self).wf(),
        ensures
            final(self).wf(),
            r == update_check(old(self)@, order),
            r is Ok ==> final(self)@ == old(self)@.update(order),
            r is Err ==> final(self)@ == old(self)@,
    {
        let id = order.order_id;
        if !self.contains(id) {
            return Err(BookError::OrderNotFound(id));
        }
        let ghost before = self@;
        let previous = self.slots[id as usize].unwrap().order;
        let side = order.side();
        proof {
            assert(before.side(OrderSide::Ask) == queues(self.asks@));
            assert(before.side(OrderSide::Bid) == queues(self.bids@));
            assert(before.orders == orders_of(self.slots@));
            assert(holds(self.slots@, id));
        }
        if previous.price.units == order.price.units && previous.side() == side {
            match side {
                OrderSide::Ask => {
                    let r = replace_in_side(
                        &mut self.asks,
                        &self.bids,
                        &mut self.slots,
                        OrderSide::Ask,
                        order,
                    );
                    proof {
                        if r is Ok {
                            assert(self@.orders == before.update(order).orders);
                        }
                    }
                    r
                },
                OrderSide::Bid => {
                    proof {
                        lemma_all_resting_flip(self.asks@, self.bids@, self.slots@);
                    }
                    let r = replace_in_side(
                        &mut self.bids,
                        &self.asks,
                        &mut self.slots,
                        OrderSide::Bid,
                        order,
                    );
                    proof {
                        lemma_all_resting_flip(self.asks@, self.bids@, self.slots@);
                        if r is Ok {
                            assert(self@.orders == before.update(order).orders);
                        }
                    }
                    r
                },
            }
        } else {
            let target = self.level_units(side, order.price);
            if target.checked_add(order.size.units).is_none() {
                return Err(BookError::SizeOverflow);
            }
            proof {
                if before.queue(side, order.price).contains(id) {
                    self.lemma_queue_members(side, order.price, id);
                }
            }
            let removed = self.remove_order(id);
            proof {
                let mid = self@;
                assert(mid == before.remove(id));
                assert(mid.queue(side, order.price) == before.queue(side, order.price));
                lemma_queue_size_without(before.orders, before.queue(side, order.price), id);
                assert(add_check(mid, order) is Ok);
            }
            let r = self.add_order(order);
            r
        }
    }
}

} // verus!
