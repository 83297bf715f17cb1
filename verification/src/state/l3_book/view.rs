//! Read-only projection of the book for rendering.

use vstd::prelude::*;

use crate::num::Decimal;
use crate::state::l3_book::query::{level_shown_orders, limited, queue_orders, shown_orders};
use crate::state::l3_book::{
    level_wf, orders_of, side_wf, BookLevel, BookOrder, OrderBook,
};
use crate::state::order::Order;
use crate::types::order::OrderSide;
use crate::types::OrderId;

verus! {

/// One price level as it is shown: its aggregates, and the first of its
/// orders in queue order.
pub struct LevelView {
    pub price: Decimal,
    pub size: Decimal,
    /// The size of this level and of all better levels of its side together;
    /// none where that leaves the range of the decimal type.
    pub cumulative_size: Option<Decimal>,
    pub num_orders: u32,
    pub orders: Vec<Order>,
}

/// The aggregates of one side of the book over all its levels, shown or
/// not.
#[derive(Clone, Copy, Debug, PartialEq, Eq, Structural)]
pub struct SideTotals {
    pub num_levels: usize,
    pub num_orders: u128,
    /// None where the sum leaves the range of the decimal type.
    pub size: Option<Decimal>,
}

/// View of an order book, limited by depth and number of orders per level.
pub struct OrderBookView {
    /// The shown ask levels, lowest price first.
    pub asks: Vec<LevelView>,
    /// The shown bid levels, highest price first.
    pub bids: Vec<LevelView>,
    /// The number of ask levels of the book, shown or not.
    pub num_ask_levels: usize,
    /// The number of bid levels of the book, shown or not.
    pub num_bid_levels: usize,
    pub ask_totals: SideTotals,
    pub bid_totals: SideTotals,
    pub best_ask: Option<(Decimal, Decimal)>,
    pub best_bid: Option<(Decimal, Decimal)>,
    pub depth: Option<usize>,
    pub orders_per_level: Option<usize>,
    pub show_expired: bool,
}

/// The number that a limit allows: the limit, or all where there is none.
pub open spec fn allowed(limit: Option<usize>, all: usize) -> usize {
    match limit {
        Some(n) => if n < all {
            n
        } else {
            all
        },
        None => all,
    }
}

/// The sum of the sizes of the first `n` levels, in units.
pub open spec fn sizes_upto(levels: Seq<BookLevel>, n: int) -> nat
    decreases n,
{
    if n <= 0 {
        0
    } else {
        sizes_upto(levels, n - 1) + levels[n - 1].size.units as nat
    }
}

/// The number of orders of the first `n` levels.
pub open spec fn orders_upto(levels: Seq<BookLevel>, n: int) -> nat
    decreases n,
{
    if n <= 0 {
        0
    } else {
        orders_upto(levels, n - 1) + levels[n - 1].num_orders as nat
    }
}

/// The decimal of `units`, where they fit.
pub open spec fn size_of(units: nat) -> Option<Decimal> {
    if units <= u128::MAX {
        Some(Decimal { units: units as u128 })
    } else {
        None
    }
}

/// The aggregates of all the levels of a side.
pub open spec fn totals_of(levels: Seq<BookLevel>) -> SideTotals {
    SideTotals {
        num_levels: levels.len() as usize,
        num_orders: orders_upto(levels, levels.len() as int) as u128,
        size: size_of(sizes_upto(levels, levels.len() as int)),
    }
}

/// Whether the shown level is the level of the book with its orders in queue
/// order: all of them or only those not expired, and of these at most the
/// number allowed per level.
pub open spec fn shows_level(
    orders: Map<OrderId, Order>,
    level: BookLevel,
    shown: LevelView,
    orders_per_level: Option<usize>,
    show_expired: bool,
) -> bool {
    &&& shown.price == level.price
    &&& shown.size == level.size
    &&& shown.num_orders == level.num_orders
    &&& shown.orders@ == limited(
        shown_orders(orders, level.queue@, show_expired),
        allowed(orders_per_level, level.num_orders as usize),
    )
}

/// Whether the shown levels are the first levels of the side, as many as the
/// depth allows.
pub open spec fn shows_side(
    orders: Map<OrderId, Order>,
    levels: Seq<BookLevel>,
    shown: Seq<LevelView>,
    depth: Option<usize>,
    orders_per_level: Option<usize>,
    show_expired: bool,
) -> bool {
    &&& shown.len() == allowed(depth, levels.len() as usize)
    &&& forall|i: int|
        0 <= i < shown.len() ==> shows_level(
            orders,
            levels[i],
            #[trigger] shown[i],
            orders_per_level,
            show_expired,
        ) && shown[i].cumulative_size == size_of(sizes_upto(levels, i + 1))
}

/// With expired orders shown, all orders of a queue are shown.
pub proof fn lemma_shown_all(orders: Map<OrderId, Order>, q: Seq<OrderId>)
    ensures
        shown_orders(orders, q, true) == queue_orders(orders, q),
    decreases q.len(),
{
    if q.len() > 0 {
        lemma_shown_all(orders, q.drop_last());
        assert(queue_orders(orders, q.drop_last()).push(orders[q.last()]) =~= queue_orders(
            orders,
            q,
        ));
    } else {
        assert(queue_orders(orders, q) =~= Seq::<Order>::empty());
    }
}

/// A view without limits that shows expired orders shows every level of a
/// side with every order of its queue, whether or not the level counts for
/// the best price.
pub proof fn lemma_view_shows_everything(
    orders: Map<OrderId, Order>,
    levels: Seq<BookLevel>,
    shown: Seq<LevelView>,
)
    requires
        shows_side(orders, levels, shown, None, None, true),
        levels.len() <= usize::MAX,
        forall|i: int|
            0 <= i < levels.len() ==> (#[trigger] levels[i]).queue@.len() == levels[i].num_orders,
    ensures
        shown.len() == levels.len(),
        forall|i: int|
            0 <= i < levels.len() ==> (#[trigger] shown[i]).price == levels[i].price
                && shown[i].orders@ == queue_orders(orders, levels[i].queue@),
{
    assert forall|i: int| 0 <= i < levels.len() implies (#[trigger] shown[i]).price
        == levels[i].price && shown[i].orders@ == queue_orders(orders, levels[i].queue@) by {
        assert(shows_level(orders, levels[i], shown[i], None, true));
        lemma_shown_all(orders, levels[i].queue@);
    }
}

fn limit_of(limit: Option<usize>, all: usize) -> (r: usize)
    ensures
        r == allowed(limit, all),
{
    match limit {
        Some(n) => if n < all {
            n
        } else {
            all
        },
        None => all,
    }
}

fn view_side(
    levels: &Vec<BookLevel>,
    slots: &Vec<Option<BookOrder>>,
    side: OrderSide,
    depth: Option<usize>,
    orders_per_level: Option<usize>,
    show_expired: bool,
) -> (r: (Vec<LevelView>, SideTotals))
    requires
        side_wf(levels@, side, slots@),
    ensures
        shows_side(orders_of(slots@), levels@, r.0@, depth, orders_per_level, show_expired),
        r.1 == totals_of(levels@),
{
    let count = limit_of(depth, levels.len());
    let mut shown: Vec<LevelView> = Vec::new();
    let mut size: Option<u128> = Some(0);
    let mut num_orders: u128 = 0;
    let mut i: usize = 0;
    while i < levels.len()
        invariant
            side_wf(levels@, side, slots@),
            count == allowed(depth, levels@.len() as usize),
            0 <= i <= levels@.len(),
            count <= levels@.len(),
            shown@.len() == (if i < count {
                i
            } else {
                count
            }),
            forall|j: int|
                0 <= j < shown@.len() ==> shows_level(
                    orders_of(slots@),
                    levels@[j],
                    #[trigger] shown@[j],
                    orders_per_level,
                    show_expired,
                ) && shown@[j].cumulative_size == size_of(sizes_upto(levels@, j + 1)),
            num_orders == orders_upto(levels@, i as int),
            num_orders <= i * 4294967296,
            match size {
                Some(units) => units == sizes_upto(levels@, i as int),
                None => sizes_upto(levels@, i as int) > u128::MAX,
            },
        decreases levels@.len() - i,
    {
        assert(level_wf(slots@, levels@[i as int], side));
        let level = levels[i];
        assert(i * 4294967296 + 4294967296 <= 0x1_0000_0000_0000_0000 * 0x1_0000_0000)
            by (nonlinear_arith)
            requires
                i < 0x1_0000_0000_0000_0000,
        ;
        num_orders = num_orders + level.num_orders as u128;
        size = match size {
            Some(units) => units.checked_add(level.size.units),
            None => None,
        };
        if i < count {
            let per_level = limit_of(orders_per_level, level.num_orders as usize);
            let orders = level_shown_orders(slots, &levels[i], side, show_expired, per_level);
            shown.push(
                LevelView {
                    price: level.price,
                    size: level.size,
                    cumulative_size: match size {
                        Some(units) => Some(Decimal { units }),
                        None => None,
                    },
                    num_orders: level.num_orders,
                    orders,
                },
            );
        }
        i = i + 1;
    }
    (
        shown,
        SideTotals {
            num_levels: levels.len(),
            num_orders,
            size: match size {
                Some(units) => Some(Decimal { units }),
                None => None,
            },
        },
    )
}

/// A hundred times `part` over `whole`, as the decimal arithmetic rounds
/// it; none where `whole` is zero or the arithmetic leaves the range.
pub open spec fn spec_percent(part: Decimal, whole: Decimal) -> Option<Decimal> {
    match part.spec_checked_div(whole) {
        Some(share) => share.spec_checked_mul(Decimal { units: 100_000_000_000_000_000_000u128 }),
        None => None,
    }
}

/// A hundred times `part` over `whole`.
pub fn percent(part: Decimal, whole: Decimal) -> (r: Option<Decimal>)
    ensures
        r == spec_percent(part, whole),
{
    proof {
        crate::num::lemma_pow10_bounds();
    }
    match part.checked_div(whole) {
        Some(share) => share.checked_mul(Decimal::from_integer(100)),
        None => None,
    }
}

impl OrderBookView {
    /// The projection of `book`: of each side the first `depth` levels, best
    /// price first, and of each level the first `orders_per_level` orders in
    /// queue order, expired ones among them only if `show_expired` is set.
    /// Without a limit everything is shown. The book is left as it is.
    pub fn new(
        book: &OrderBook,
        depth: Option<usize>,
        orders_per_level: Option<usize>,
        show_expired: bool,
    ) -> (r: OrderBookView)
        requires
            book.wf(),
        ensures
            shows_side(book@.orders, book.asks@, r.asks@, depth, orders_per_level, show_expired),
            shows_side(book@.orders, book.bids@, r.bids@, depth, orders_per_level, show_expired),
            r.num_ask_levels == book.asks@.len(),
            r.num_bid_levels == book.bids@.len(),
            r.ask_totals == totals_of(book.asks@),
            r.bid_totals == totals_of(book.bids@),
            r.depth == depth,
            r.orders_per_level == orders_per_level,
            r.show_expired == show_expired,
            match r.best_ask {
                Some((price, size)) => book@.is_best(OrderSide::Ask, price) && size.units
                    == book@.active_level_size(OrderSide::Ask, price),
                None => book@.no_best(OrderSide::Ask),
            },
            match r.best_bid {
                Some((price, size)) => book@.is_best(OrderSide::Bid, price) && size.units
                    == book@.active_level_size(OrderSide::Bid, price),
                None => book@.no_best(OrderSide::Bid),
            },
    {
        let (asks, ask_totals) = view_side(
            &book.asks,
            &book.slots,
            OrderSide::Ask,
            depth,
            orders_per_level,
            show_expired,
        );
        let (bids, bid_totals) = view_side(
            &book.bids,
            &book.slots,
            OrderSide::Bid,
            depth,
            orders_per_level,
            show_expired,
        );
        OrderBookView {
            asks,
            bids,
            num_ask_levels: book.asks.len(),
            num_bid_levels: book.bids.len(),
            ask_totals,
            bid_totals,
            best_ask: book.best_ask(),
            best_bid: book.best_bid(),
            depth,
            orders_per_level,
            show_expired,
        }
    }
}

impl OrderBookView {
    /// The difference between the best ask and the best bid, where both
    /// exist; zero for a crossed book.
    pub fn spread(&self) -> (r: Option<Decimal>)
        ensures
            r == (match (self.best_ask, self.best_bid) {
                (Some((ask, _)), Some((bid, _))) => Some(
                    Decimal {
                        units: if ask.units >= bid.units {
                            (ask.units - bid.units) as u128
                        } else {
                            0
                        },
                    },
                ),
                _ => None,
            }),
    {
        match (self.best_ask, self.best_bid) {
            (Some((ask, _)), Some((bid, _))) => Some(ask.saturating_sub(bid)),
            _ => None,
        }
    }

    /// The total size of both sides; none where it leaves the range or a
    /// side's size does.
    pub open spec fn spec_total_size(&self) -> Option<Decimal> {
        match (self.ask_totals.size, self.bid_totals.size) {
            (Some(a), Some(b)) => size_of(a.units as nat + b.units as nat),
            _ => None,
        }
    }

    /// The shares of the ask side and of the bid side in the total size of
    /// the book, in percent. There are none for an empty book.
    pub fn shares(&self) -> (r: Option<(Decimal, Decimal)>)
        ensures
            r == (match self.spec_total_size() {
                Some(total) => match (
                    spec_percent(self.ask_totals.size->Some_0, total),
                    spec_percent(self.bid_totals.size->Some_0, total),
                ) {
                    (Some(a), Some(b)) => Some((a, b)),
                    _ => None,
                },
                None => None,
            }),
    {
        match (self.ask_totals.size, self.bid_totals.size) {
            (Some(a), Some(b)) => match a.checked_add(b) {
                Some(total) => match (percent(a, total), percent(b, total)) {
                    (Some(x), Some(y)) => Some((x, y)),
                    _ => None,
                },
                None => None,
            },
            _ => None,
        }
    }
}

impl OrderBook {
    /// A read-only projection of the book; see [`OrderBookView::new`].
    pub fn view_of(
        &self,
        depth: Option<usize>,
        orders_per_level: Option<usize>,
        show_expired: bool,
    ) -> (r: OrderBookView)
        requires
            self.wf(),
        ensures
            shows_side(self@.orders, self.asks@, r.asks@, depth, orders_per_level, show_expired),
            shows_side(self@.orders, self.bids@, r.bids@, depth, orders_per_level, show_expired),
            r.num_ask_levels == self.asks@.len(),
            r.num_bid_levels == self.bids@.len(),
    {
        OrderBookView::new(self, depth, orders_per_level, show_expired)
    }
}

} // verus!
