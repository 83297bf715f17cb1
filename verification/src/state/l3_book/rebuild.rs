//! Rebuilding a book from the orders that the exchange stores.
//!
//! The exchange hands its orders out in its own order and gives each the
//! IDs of its neighbours in the queue of its price level. A link counts
//! only where both ends agree: the order names an order before it that is
//! among the orders, rests at the same price on the same side, and names
//! the order as the one after it. Orders are queued by the number of such
//! links before them, and where that number is equal, in the order in which
//! the exchange handed them out.

use vstd::prelude::*;

use crate::state::l3_book::{add_check, BookError, BookModel, OrderBook};
use crate::state::order::Order;
use crate::types::OrderId;

verus! {

/// The index of the first of the first `n` orders that carries the ID
/// `id`, or `n` if none does.
pub open spec fn first_with_id(orders: Seq<Order>, id: OrderId, n: int) -> int
    decreases n,
{
    if n <= 0 {
        0
    } else {
        let before = first_with_id(orders, id, n - 1);
        if before < n - 1 {
            before
        } else if orders[n - 1].order_id == id {
            n - 1
        } else {
            n
        }
    }
}

/// The index of the order that stands before the `i`-th in its queue, as
/// far as the links of both agree.
pub open spec fn predecessor(orders: Seq<Order>, i: int) -> Option<int> {
    match orders[i].prev_order_id {
        None => None,
        Some(id) => {
            let j = first_with_id(orders, id, orders.len() as int);
            if j < orders.len() && j != i && orders[j].next_order_id == Some(orders[i].order_id)
                && orders[j].price == orders[i].price && orders[j].spec_side()
                == orders[i].spec_side() {
                Some(j)
            } else {
                None
            }
        },
    }
}

/// The number of orders that stand before the `i`-th in its queue by their
/// links, counted up to `fuel`.
pub open spec fn rank(orders: Seq<Order>, i: int, fuel: nat) -> nat
    decreases fuel,
{
    if fuel == 0 {
        0
    } else {
        match predecessor(orders, i) {
            None => 0,
            Some(j) => 1 + rank(orders, j, (fuel - 1) as nat),
        }
    }
}

/// The number up to which the orders before an order are counted: the
/// number of order IDs. Further no queue reaches; only links that run in a
/// circle get there.
pub const MAX_RANK: usize = 65536;

/// Those of the first `n` orders that have `d` orders before them, in the
/// order in which they were handed out.
pub open spec fn of_rank(orders: Seq<Order>, d: nat, n: int) -> Seq<Order>
    decreases n,
{
    if n <= 0 {
        Seq::empty()
    } else if rank(orders, n - 1, MAX_RANK as nat) == d {
        of_rank(orders, d, n - 1).push(orders[n - 1])
    } else {
        of_rank(orders, d, n - 1)
    }
}

/// The orders that have fewer than `d` orders before them, those with the
/// fewest first.
pub open spec fn link_order(orders: Seq<Order>, d: int) -> Seq<Order>
    decreases d,
{
    if d <= 0 {
        Seq::empty()
    } else {
        link_order(orders, d - 1) + of_rank(orders, (d - 1) as nat, orders.len() as int)
    }
}

/// The book after the first `n` orders of `plan` have been added one after
/// the other, or the refusal of the first order that the book refuses.
pub open spec fn add_all(model: BookModel, plan: Seq<Order>, n: int) -> Result<BookModel, BookError>
    decreases n,
{
    if n <= 0 {
        Ok(model)
    } else {
        match add_all(model, plan, n - 1) {
            Err(e) => Err(e),
            Ok(before) => match add_check(before, plan[n - 1]) {
                Err(e) => Err(e),
                Ok(_) => Ok(before.add(plan[n - 1])),
            },
        }
    }
}

/// Once an order is refused, the refusal stands however many orders follow.
pub proof fn lemma_add_all_error(model: BookModel, plan: Seq<Order>, n: int, m: int)
    requires
        0 <= n <= m,
        add_all(model, plan, n) is Err,
    ensures
        add_all(model, plan, m) == add_all(model, plan, n),
    decreases m - n,
{
    if n < m {
        lemma_add_all_error(model, plan, n, m - 1);
    }
}

/// No order has more orders before it than it was given fuel to count.
pub proof fn lemma_rank_bound(orders: Seq<Order>, i: int, fuel: nat)
    ensures
        rank(orders, i, fuel) <= fuel,
    decreases fuel,
{
    if fuel > 0 {
        match predecessor(orders, i) {
            None => {},
            Some(j) => {
                lemma_rank_bound(orders, j, (fuel - 1) as nat);
            },
        }
    }
}

/// Where no order has `d` orders before it, none is queued for that number.
pub proof fn lemma_of_rank_empty(orders: Seq<Order>, d: nat, n: int)
    requires
        0 <= n <= orders.len(),
        forall|i: int| 0 <= i < orders.len() ==> rank(orders, i, MAX_RANK as nat) != d,
    ensures
        of_rank(orders, d, n) == Seq::<Order>::empty(),
    decreases n,
{
    if n > 0 {
        lemma_of_rank_empty(orders, d, n - 1);
    }
}

/// Beyond the largest number of orders that any order has before it, the
/// queue order gains nothing.
pub proof fn lemma_link_order_beyond(orders: Seq<Order>, top: int, d: int)
    requires
        0 <= top <= d,
        forall|i: int| 0 <= i < orders.len() ==> rank(orders, i, MAX_RANK as nat) < top,
    ensures
        link_order(orders, d) == link_order(orders, top),
    decreases d - top,
{
    if top < d {
        lemma_link_order_beyond(orders, top, d - 1);
        lemma_of_rank_empty(orders, (d - 1) as nat, orders.len() as int);
        assert(link_order(orders, d - 1) + Seq::<Order>::empty() =~= link_order(orders, d - 1));
    }
}

/// Orders without links are queued in the order in which the exchange
/// handed them out.
pub proof fn lemma_unlinked_order(orders: Seq<Order>)
    requires
        forall|i: int| 0 <= i < orders.len() ==> (#[trigger] orders[i]).prev_order_id is None,
    ensures
        link_order(orders, MAX_RANK as int + 1) == orders,
{
    let n = orders.len() as int;
    assert forall|i: int| 0 <= i < n implies rank(orders, i, MAX_RANK as nat) < 1 by {
        assert(orders[i].prev_order_id is None);
    }
    lemma_link_order_beyond(orders, 1, MAX_RANK as int + 1);
    lemma_all_of_rank_zero(orders, n);
    assert(orders.take(n) =~= orders);
    assert(link_order(orders, 0) + orders =~= orders);
}

/// Where none of the first `n` orders has an order before it, all of them
/// are queued first.
proof fn lemma_all_of_rank_zero(orders: Seq<Order>, n: int)
    requires
        0 <= n <= orders.len(),
        forall|i: int| 0 <= i < orders.len() ==> rank(orders, i, MAX_RANK as nat) < 1,
    ensures
        of_rank(orders, 0, n) == orders.take(n),
    decreases n,
{
    if n > 0 {
        lemma_all_of_rank_zero(orders, n - 1);
        assert(rank(orders, n - 1, MAX_RANK as nat) == 0);
        assert(orders.take(n - 1).push(orders[n - 1]) =~= orders.take(n));
    } else {
        assert(orders.take(0) =~= Seq::<Order>::empty());
    }
}

/// The first order with an ID is found among the orders looked at, or the
/// answer is their number.
pub proof fn lemma_first_with_id_bound(orders: Seq<Order>, id: OrderId, n: int)
    requires
        0 <= n,
    ensures
        0 <= first_with_id(orders, id, n) <= n,
    decreases n,
{
    if n > 0 {
        lemma_first_with_id_bound(orders, id, n - 1);
    }
}

/// For every ID the index of the first order that carries it, or the number
/// of orders where none does.
fn id_table(orders: &Vec<Order>) -> (table: Vec<usize>)
    ensures
        table@.len() == 65536,
        forall|id: OrderId| #[trigger]
            table@[id as int] == first_with_id(orders@, id, orders@.len() as int),
{
    let n = orders.len();
    let mut table: Vec<usize> = Vec::new();
    let mut k: usize = 0;
    while k < 65536
        invariant
            0 <= k <= 65536,
            table@.len() == k,
            forall|j: int| 0 <= j < k ==> table@[j] == n,
        decreases 65536 - k,
    {
        table.push(n);
        k = k + 1;
    }
    let mut i: usize = 0;
    while i < n
        invariant
            0 <= i <= n,
            n == orders@.len(),
            table@.len() == 65536,
            forall|id: OrderId| #[trigger]
                table@[id as int] == (if first_with_id(orders@, id, i as int) < i {
                    first_with_id(orders@, id, i as int)
                } else {
                    n as int
                }),
        decreases n - i,
    {
        let id = orders[i].order_id;
        let ghost before = table@;
        if table[id as usize] == n {
            table[id as usize] = i;
        }
        proof {
            assert forall|x: OrderId| #[trigger]
                table@[x as int] == (if first_with_id(orders@, x, i + 1) < i + 1 {
                    first_with_id(orders@, x, i + 1)
                } else {
                    n as int
                }) by {
                lemma_first_with_id_bound(orders@, x, i as int);
                assert(before[x as int] == (if first_with_id(orders@, x, i as int) < i {
                    first_with_id(orders@, x, i as int)
                } else {
                    n as int
                }));
            }
        }
        i = i + 1;
    }
    proof {
        assert forall|id: OrderId| #[trigger]
            table@[id as int] == first_with_id(orders@, id, orders@.len() as int) by {
            lemma_first_with_id_bound(orders@, id, n as int);
        }
    }
    table
}

/// The index of the order that stands before the `i`-th in its queue, as
/// far as the links of both agree.
fn predecessor_of(orders: &Vec<Order>, table: &Vec<usize>, i: usize) -> (r: Option<usize>)
    requires
        i < orders@.len(),
        table@.len() == 65536,
        forall|id: OrderId| #[trigger]
            table@[id as int] == first_with_id(orders@, id, orders@.len() as int),
    ensures
        match r {
            Some(j) => predecessor(orders@, i as int) == Some(j as int) && j < orders@.len(),
            None => predecessor(orders@, i as int) is None,
        },
{
    match orders[i].prev_order_id {
        None => None,
        Some(id) => {
            let j = table[id as usize];
            if j < orders.len() && j != i {
                let before = &orders[j];
                let order = &orders[i];
                let linked = match before.next_order_id {
                    Some(next) => next == order.order_id,
                    None => false,
                };
                if linked && before.price.units == order.price.units && before.side()
                    == order.side() {
                    Some(j)
                } else {
                    None
                }
            } else {
                None
            }
        },
    }
}

/// For every order the number of orders that stand before it in its queue
/// by their links.
fn ranks(orders: &Vec<Order>, table: &Vec<usize>) -> (r: Vec<usize>)
    requires
        table@.len() == 65536,
        forall|id: OrderId| #[trigger]
            table@[id as int] == first_with_id(orders@, id, orders@.len() as int),
    ensures
        r@.len() == orders@.len(),
        forall|i: int| 0 <= i < r@.len() ==> #[trigger] r@[i] == rank(orders@, i, MAX_RANK as nat),
{
    let n = orders.len();
    let mut out: Vec<usize> = Vec::new();
    let mut i: usize = 0;
    while i < n
        invariant
            0 <= i <= n,
            n == orders@.len(),
            table@.len() == 65536,
            forall|id: OrderId| #[trigger]
                table@[id as int] == first_with_id(orders@, id, orders@.len() as int),
            out@.len() == i,
            forall|k: int| 0 <= k < i ==> #[trigger] out@[k] == rank(orders@, k, MAX_RANK as nat),
        decreases n - i,
    {
        let mut count: usize = 0;
        let mut cur: usize = i;
        let mut fuel: usize = MAX_RANK;
        let mut open = true;
        while open && fuel > 0
            invariant
                n == orders@.len(),
                cur < n,
                count + fuel == MAX_RANK,
                table@.len() == 65536,
                forall|id: OrderId| #[trigger]
                    table@[id as int] == first_with_id(orders@, id, orders@.len() as int),
                open ==> rank(orders@, i as int, MAX_RANK as nat) == count + rank(
                    orders@,
                    cur as int,
                    fuel as nat,
                ),
                !open ==> rank(orders@, i as int, MAX_RANK as nat) == count,
            decreases fuel + (if open {
                1int
            } else {
                0int
            }),
        {
            match predecessor_of(orders, table, cur) {
                Some(j) => {
                    count = count + 1;
                    cur = j;
                    fuel = fuel - 1;
                },
                None => {
                    open = false;
                },
            }
        }
        out.push(count);
        i = i + 1;
    }
    out
}

/// The orders in the order of their queues: those with the fewest orders
/// before them first.
pub fn queue_order(orders: &Vec<Order>) -> (r: Vec<Order>)
    ensures
        r@ == link_order(orders@, MAX_RANK as int + 1),
{
    let n = orders.len();
    let table = id_table(orders);
    let ranks = ranks(orders, &table);
    let mut top: usize = 0;
    let mut i: usize = 0;
    while i < n
        invariant
            0 <= i <= n,
            n == orders@.len(),
            ranks@.len() == n,
            forall|k: int| 0 <= k < n ==> #[trigger] ranks@[k] == rank(orders@, k, MAX_RANK as nat),
            top <= MAX_RANK + 1,
            forall|k: int| 0 <= k < i ==> #[trigger] ranks@[k] < top,
        decreases n - i,
    {
        proof {
            lemma_rank_bound(orders@, i as int, MAX_RANK as nat);
        }
        if ranks[i] >= top {
            top = ranks[i] + 1;
        }
        i = i + 1;
    }
    let mut out: Vec<Order> = Vec::new();
    let mut d: usize = 0;
    assert(out@ =~= link_order(orders@, 0));
    while d < top
        invariant
            0 <= d <= top,
            n == orders@.len(),
            ranks@.len() == n,
            forall|k: int| 0 <= k < n ==> #[trigger] ranks@[k] == rank(orders@, k, MAX_RANK as nat),
            out@ == link_order(orders@, d as int),
        decreases top - d,
    {
        let ghost start = out@;
        let mut k: usize = 0;
        assert(start + of_rank(orders@, d as nat, 0) =~= start);
        while k < n
            invariant
                0 <= k <= n,
                n == orders@.len(),
                ranks@.len() == n,
                forall|x: int|
                    0 <= x < n ==> #[trigger] ranks@[x] == rank(orders@, x, MAX_RANK as nat),
                out@ == start + of_rank(orders@, d as nat, k as int),
            decreases n - k,
        {
            if ranks[k] == d {
                out.push(orders[k]);
            }
            assert(out@ =~= start + of_rank(orders@, d as nat, k + 1));
            k = k + 1;
        }
        d = d + 1;
    }
    proof {
        assert forall|k: int| 0 <= k < orders@.len() implies rank(orders@, k, MAX_RANK as nat)
            < top by {
            assert(ranks@[k] < top);
        }
        lemma_link_order_beyond(orders@, top as int, MAX_RANK as int + 1);
    }
    out
}

impl OrderBook {
    /// The book of the orders that the exchange stores, each queue in the
    /// order of its links; see [`link_order`]. Fails with the refusal of the
    /// first order that the book refuses: an ID of zero, an ID that came
    /// before, or a level whose size leaves the range of the decimal type.
    pub fn from_snapshot(orders: &Vec<Order>) -> (r: Result<OrderBook, BookError>)
        ensures
            match add_all(
                OrderBook::spec_empty(),
                link_order(orders@, MAX_RANK as int + 1),
                link_order(orders@, MAX_RANK as int + 1).len() as int,
            ) {
                Ok(model) => r is Ok && r->Ok_0.wf() && r->Ok_0@ == model,
                Err(e) => r is Err && r->Err_0 == e,
            },
    {
        let plan = queue_order(orders);
        let mut book = OrderBook::new();
        let mut i: usize = 0;
        while i < plan.len()
            invariant
                0 <= i <= plan@.len(),
                plan@ == link_order(orders@, MAX_RANK as int + 1),
                book.wf(),
                add_all(OrderBook::spec_empty(), plan@, i as int) == Ok::<BookModel, BookError>(
                    book@,
                ),
            decreases plan@.len() - i,
        {
            match book.add_order(plan[i]) {
                Ok(_) => {},
                Err(e) => {
                    proof {
                        assert(add_all(OrderBook::spec_empty(), plan@, i + 1) is Err);
                        lemma_add_all_error(
                            OrderBook::spec_empty(),
                            plan@,
                            i + 1,
                            plan@.len() as int,
                        );
                    }
                    return Err(e);
                },
            }
            i = i + 1;
        }
        Ok(book)
    }
}

} // verus!
