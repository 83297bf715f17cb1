use perpl_sdk::error::DexError;
use perpl_sdk::num::Decimal;
use perpl_sdk::state::l3_book::rebuild::queue_order;
use perpl_sdk::state::{BookError, Order, OrderBook, Perpetual, PerpetualInfo};
use perpl_sdk::types::{OrderSide, OrderType, StateInstant};

fn whole(n: u64) -> Decimal {
    Decimal::from_integer(n)
}

fn ask(id: u16, price: u64, prev: Option<u16>, next: Option<u16>) -> Order {
    Order::for_l3_testing_with_links(OrderType::OpenShort, whole(price), whole(1), 1, id, 0, prev, next)
}

fn bid(id: u16, price: u64, prev: Option<u16>, next: Option<u16>) -> Order {
    Order::for_l3_testing_with_links(OrderType::OpenLong, whole(price), whole(1), 1, id, 0, prev, next)
}

fn ids(orders: &[Order]) -> Vec<u16> {
    orders.iter().map(|o| o.order_id()).collect()
}

#[test]
fn links_decide_the_queue_order() {
    // handed out by id; queued 3, 1, 2
    let orders = vec![
        ask(1, 100, Some(3), Some(2)),
        ask(2, 100, Some(1), None),
        ask(3, 100, None, Some(1)),
    ];
    assert_eq!(ids(&queue_order(&orders)), vec![3, 1, 2]);
    let book = OrderBook::from_snapshot(&orders).unwrap();
    assert_eq!(ids(&book.ask_orders()), vec![3, 1, 2]);
    let level = book.ask_level(whole(100)).unwrap();
    assert_eq!(level.head(), Some(3));
    assert_eq!(level.tail(), Some(2));
    assert_eq!(level.num_orders(), 3);
    assert_eq!(level.size(), whole(3));
}

#[test]
fn orders_without_links_keep_the_order_they_came_in() {
    let orders = vec![ask(4, 100, None, None), ask(2, 100, None, None), ask(9, 100, None, None), bid(1, 90, None, None)];
    assert_eq!(ids(&queue_order(&orders)), vec![4, 2, 9, 1]);
    let book = OrderBook::from_snapshot(&orders).unwrap();
    assert_eq!(ids(&book.ask_orders()), vec![4, 2, 9]);
    assert_eq!(ids(&book.bid_orders()), vec![1]);
    assert!(OrderBook::from_snapshot(&Vec::new()).unwrap().ask_orders().is_empty());
}

#[test]
fn links_to_absent_orders_count_as_none() {
    let orders = vec![
        ask(5, 100, Some(99), Some(6)),
        ask(6, 100, Some(5), Some(77)),
    ];
    assert_eq!(ids(&OrderBook::from_snapshot(&orders).unwrap().ask_orders()), vec![5, 6]);
    // handed out the other way round, the link still decides
    let orders = vec![
        ask(6, 100, Some(5), Some(77)),
        ask(5, 100, Some(99), Some(6)),
    ];
    assert_eq!(ids(&OrderBook::from_snapshot(&orders).unwrap().ask_orders()), vec![5, 6]);
}

#[test]
fn links_that_do_not_agree_are_passed_over() {
    // 2 names 1 as the order before it, but 1 names 3 as the order after it
    let orders = vec![
        ask(2, 100, Some(1), None),
        ask(1, 100, None, Some(3)),
        ask(3, 100, None, None),
    ];
    assert_eq!(ids(&OrderBook::from_snapshot(&orders).unwrap().ask_orders()), vec![2, 1, 3]);
    // a link across prices or sides is none
    let orders = vec![
        ask(2, 101, Some(1), None),
        ask(1, 100, None, Some(2)),
        bid(4, 90, Some(3), None),
        ask(3, 90, None, Some(4)),
    ];
    let book = OrderBook::from_snapshot(&orders).unwrap();
    assert_eq!(ids(&book.ask_orders()), vec![3, 1, 2]);
    assert_eq!(ids(&queue_order(&orders)), vec![2, 1, 4, 3]);
    // an order cannot stand before itself
    let orders = vec![ask(1, 100, Some(1), Some(1)), ask(2, 100, None, None)];
    assert_eq!(ids(&queue_order(&orders)), vec![1, 2]);
}

#[test]
fn levels_are_rebuilt_side_by_side() {
    let orders = vec![
        ask(1, 100, Some(2), None),
        bid(10, 90, Some(11), None),
        ask(2, 100, None, Some(1)),
        bid(11, 90, None, Some(10)),
        ask(3, 99, None, None),
    ];
    let book = OrderBook::from_snapshot(&orders).unwrap();
    assert_eq!(ids(&book.ask_orders()), vec![3, 2, 1]);
    assert_eq!(ids(&book.bid_orders()), vec![11, 10]);
    assert_eq!(book.best_ask(), Some((whole(99), whole(1))));
    assert_eq!(book.best_bid(), Some((whole(90), whole(2))));
    assert_eq!(ids(&book.level_orders(OrderSide::Ask, whole(100))), vec![2, 1]);
}

#[test]
fn links_in_a_circle_fall_back_to_the_order_they_came_in() {
    let orders = vec![
        ask(2, 100, Some(1), Some(1)),
        ask(1, 100, Some(2), Some(2)),
        ask(3, 100, None, None),
    ];
    // the order without orders before it comes first, the circle after it
    assert_eq!(ids(&OrderBook::from_snapshot(&orders).unwrap().ask_orders()), vec![3, 2, 1]);
}

#[test]
fn rebuilding_refuses_what_the_book_refuses() {
    let twice = vec![ask(1, 100, None, None), ask(1, 101, None, None)];
    assert!(matches!(OrderBook::from_snapshot(&twice), Err(BookError::DuplicateOrderId(1))));
    let zero = vec![ask(1, 100, None, None), ask(0, 101, None, None)];
    assert!(matches!(OrderBook::from_snapshot(&zero), Err(BookError::InvalidOrderId)));
    let full = vec![
        ask(1, 100, None, None).with_size(Decimal::from_units(u128::MAX)),
        ask(2, 100, None, None),
    ];
    assert!(matches!(OrderBook::from_snapshot(&full), Err(BookError::SizeOverflow)));
}

#[test]
fn perpetual_loads_its_orders() {
    let info = PerpetualInfo {
        name: "ETH".to_string(),
        symbol: "ETH".to_string(),
        paused: true,
        price_decimals: 2,
        lot_decimals: 3,
        base_price_pns: 0,
        mark_pns: 0,
        mark_timestamp: 0,
        index_pns: 0,
        index_timestamp: 0,
        oracle_pns: 0,
        oracle_timestamp_sec: 0,
        funding_start_block: 0,
        ref_price_max_age_sec: 0,
        long_open_interest_lns: 0,
    };
    let mut perp = Perpetual::new(StateInstant::new(1, 1), 32, &info, 0, 0, 0, 0).unwrap();
    perp.load_orders(&vec![ask(1, 100, Some(2), None), ask(2, 100, None, Some(1))]).unwrap();
    assert_eq!(ids(&perp.l3_book().ask_orders()), vec![2, 1]);
    assert_eq!(perp.get_order(2).unwrap().next_order_id(), Some(1));
    let twice = vec![ask(7, 100, None, None), ask(7, 100, None, None)];
    assert_eq!(perp.load_orders(&twice), Err(DexError::DuplicateOrderId(32, 7)));
    // the book is as it was
    assert_eq!(ids(&perp.l3_book().ask_orders()), vec![2, 1]);
    assert!(perp.is_paused());
    assert_eq!(perp.symbol(), "ETH".to_string());
}

#[test]
fn a_long_queue_is_rebuilt_in_order() {
    // 2000 orders of one level, handed out by id, queued in reverse
    let n: u16 = 2000;
    let orders: Vec<Order> = (1..=n)
        .map(|id| {
            let prev = if id == n { None } else { Some(id + 1) };
            let next = if id == 1 { None } else { Some(id - 1) };
            ask(id, 100, prev, next)
        })
        .collect();
    let book = OrderBook::from_snapshot(&orders).unwrap();
    assert_eq!(ids(&book.ask_orders()), (1..=n).rev().collect::<Vec<u16>>());
    assert_eq!(book.ask_level(whole(100)).unwrap().num_orders(), 2000);
}
