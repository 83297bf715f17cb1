use perpl_sdk::num::{Converter, Decimal};
use perpl_sdk::state::{BookError, Order, OrderBook, OrderBookView};
use perpl_sdk::types::{OrderSide, OrderType, StateInstant};

fn dec(raw: u128, decimals: u8) -> Decimal {
    Converter::new(decimals).from_unsigned(raw).unwrap()
}

fn whole(n: u64) -> Decimal {
    Decimal::from_integer(n)
}

fn ask(id: u16, price: u64, size: Decimal) -> Order {
    Order::for_l3_testing(OrderType::OpenShort, whole(price), size, 1, id, 0)
}

fn bid(id: u16, price: u64, size: Decimal) -> Order {
    Order::for_l3_testing(OrderType::OpenLong, whole(price), size, 1, id, 1)
}

fn ids(orders: &[Order]) -> Vec<u16> {
    orders.iter().map(|o| o.order_id()).collect()
}

#[test]
fn empty_book_has_no_best_prices() {
    let book = OrderBook::new();
    assert_eq!(book.best_ask(), None);
    assert_eq!(book.best_bid(), None);
    assert!(book.ask_level(whole(100_000)).is_none());
    assert!(book.ask_orders().is_empty());
    assert!(book.bid_orders().is_empty());
    assert_eq!(book.get_order(1), None);
    assert!(!book.contains(1));
}

#[test]
fn add_order_creates_level_and_queues_at_tail() {
    let mut book = OrderBook::new();
    book.add_order(ask(1, 100_000, whole(1))).unwrap();
    book.add_order(ask(2, 100_000, whole(2))).unwrap();
    book.add_order(ask(3, 99_900, whole(1))).unwrap();
    book.add_order(bid(4, 99_000, dec(5, 1))).unwrap();

    let level = book.ask_level(whole(100_000)).unwrap();
    assert_eq!(level.num_orders(), 2);
    assert_eq!(level.size(), whole(3));
    assert_eq!(level.price(), whole(100_000));
    assert_eq!(level.head(), Some(1));
    assert_eq!(level.tail(), Some(2));
    assert!(!level.is_empty());

    assert_eq!(book.best_ask(), Some((whole(99_900), whole(1))));
    assert_eq!(book.best_bid(), Some((whole(99_000), dec(5, 1))));
    assert_eq!(ids(&book.ask_orders()), vec![3, 1, 2]);
    assert_eq!(ids(&book.bid_orders()), vec![4]);
    assert_eq!(ids(&book.level_orders(OrderSide::Ask, whole(100_000))), vec![1, 2]);
    assert!(book.level_orders(OrderSide::Bid, whole(100_000)).is_empty());
    assert_eq!(book.asks().len(), 2);
    assert_eq!(book.bids().len(), 1);
}

#[test]
fn add_order_refuses_zero_and_duplicate_ids() {
    let mut book = OrderBook::new();
    assert_eq!(book.add_order(ask(0, 100_000, whole(1))), Err(BookError::InvalidOrderId));
    book.add_order(ask(7, 100_000, whole(1))).unwrap();
    assert_eq!(book.add_order(ask(7, 100_100, whole(1))), Err(BookError::DuplicateOrderId(7)));
    assert_eq!(book.add_order(bid(7, 90_000, whole(1))), Err(BookError::DuplicateOrderId(7)));
    assert_eq!(book.get_order(7).unwrap().price(), whole(100_000));
    assert!(book.ask_level(whole(100_100)).is_none());
    assert_eq!(book.best_bid(), None);
}

#[test]
fn add_order_refuses_level_size_overflow() {
    let mut book = OrderBook::new();
    book.add_order(ask(1, 100_000, Decimal::from_units(u128::MAX - 1))).unwrap();
    assert_eq!(book.add_order(ask(2, 100_000, Decimal::from_units(2))), Err(BookError::SizeOverflow));
    assert!(!book.contains(2));
    book.add_order(ask(2, 100_000, Decimal::from_units(1))).unwrap();
    assert_eq!(book.ask_level(whole(100_000)).unwrap().size(), Decimal::from_units(u128::MAX));
}

#[test]
fn bids_are_sorted_from_the_highest_price() {
    let mut book = OrderBook::new();
    book.add_order(bid(1, 99_000, whole(1))).unwrap();
    book.add_order(bid(2, 99_500, whole(1))).unwrap();
    book.add_order(bid(3, 98_000, whole(1))).unwrap();
    book.add_order(bid(4, 99_500, whole(1))).unwrap();
    assert_eq!(ids(&book.bid_orders()), vec![2, 4, 1, 3]);
    assert_eq!(book.best_bid(), Some((whole(99_500), whole(2))));
    let prices: Vec<Decimal> = book.bids().iter().map(|l| l.price()).collect();
    assert_eq!(prices, vec![whole(99_500), whole(99_000), whole(98_000)]);
}

#[test]
fn fifo_within_level() {
    // two makers at one price, sizes 1 then 2; a taker takes 1.5
    let mut book = OrderBook::new();
    book.add_order(ask(1, 100_000, whole(1))).unwrap();
    book.add_order(ask(2, 100_000, whole(2))).unwrap();
    // the first maker is filled in full and leaves, vacating its id
    assert_eq!(book.remove_order(1).unwrap().size(), whole(1));
    // the second is filled by the remaining 0.5
    let second = book.get_order(2).unwrap();
    book.update_order(second.with_size(dec(15, 1))).unwrap();

    assert!(!book.contains(1));
    let level = book.ask_level(whole(100_000)).unwrap();
    assert_eq!(level.num_orders(), 1);
    assert_eq!(level.size(), dec(15, 1));
    assert_eq!(level.head(), Some(2));
    assert_eq!(level.tail(), Some(2));
    assert_eq!(ids(&book.ask_orders()), vec![2]);
    assert_eq!(book.best_ask(), Some((whole(100_000), dec(15, 1))));
}

#[test]
fn change_price_loses_queue_position() {
    let mut book = OrderBook::new();
    book.add_order(ask(1, 100_000, whole(1))).unwrap();
    book.add_order(ask(2, 100_000, whole(1))).unwrap();
    book.add_order(ask(3, 100_000, whole(1))).unwrap();
    let b = book.get_order(2).unwrap();
    book.update_order(b.with_price(whole(99_900))).unwrap();

    let upper = book.ask_level(whole(100_000)).unwrap();
    assert_eq!(upper.num_orders(), 2);
    assert_eq!(upper.size(), whole(2));
    assert_eq!(ids(&book.level_orders(OrderSide::Ask, whole(100_000))), vec![1, 3]);
    let lower = book.ask_level(whole(99_900)).unwrap();
    assert_eq!(lower.num_orders(), 1);
    assert_eq!(lower.size(), whole(1));
    assert_eq!(ids(&book.level_orders(OrderSide::Ask, whole(99_900))), vec![2]);
    assert_eq!(book.best_ask(), Some((whole(99_900), whole(1))));

    // moving back joins the tail
    let b = book.get_order(2).unwrap();
    book.update_order(b.with_price(whole(100_000))).unwrap();
    assert_eq!(ids(&book.level_orders(OrderSide::Ask, whole(100_000))), vec![1, 3, 2]);
    assert!(book.ask_level(whole(99_900)).is_none());
}

#[test]
fn update_in_place_keeps_queue_position() {
    let mut book = OrderBook::new();
    book.add_order(ask(1, 100_000, whole(1))).unwrap();
    book.add_order(ask(2, 100_000, whole(1))).unwrap();
    book.add_order(ask(3, 100_000, whole(1))).unwrap();
    let first = book.get_order(1).unwrap();
    book.update_order(first.with_size(dec(4, 1))).unwrap();
    assert_eq!(ids(&book.level_orders(OrderSide::Ask, whole(100_000))), vec![1, 2, 3]);
    assert_eq!(book.ask_level(whole(100_000)).unwrap().size(), dec(24, 1));
    assert_eq!(book.get_order(1).unwrap().size(), dec(4, 1));
}

#[test]
fn update_order_that_changes_side_moves_to_the_other_side() {
    let mut book = OrderBook::new();
    book.add_order(ask(1, 100_000, whole(1))).unwrap();
    let moved = Order::for_l3_testing(OrderType::OpenLong, whole(100_000), whole(1), 1, 1, 0);
    book.update_order(moved).unwrap();
    assert!(book.ask_level(whole(100_000)).is_none());
    assert_eq!(book.bid_level(whole(100_000)).unwrap().num_orders(), 1);
}

#[test]
fn update_and_remove_refuse_unknown_ids() {
    let mut book = OrderBook::new();
    book.add_order(ask(1, 100_000, whole(1))).unwrap();
    assert_eq!(book.update_order(ask(2, 100_000, whole(1))), Err(BookError::OrderNotFound(2)));
    assert_eq!(book.remove_order(2), Err(BookError::OrderNotFound(2)));
    assert_eq!(book.remove_order(0), Err(BookError::OrderNotFound(0)));
    assert_eq!(book.update_order(ask(0, 100_000, whole(1))), Err(BookError::OrderNotFound(0)));
    assert_eq!(book.ask_level(whole(100_000)).unwrap().num_orders(), 1);
}

#[test]
fn update_order_refuses_overflow_and_leaves_book_unchanged() {
    let mut book = OrderBook::new();
    book.add_order(ask(1, 100_000, whole(1))).unwrap();
    book.add_order(ask(2, 100_100, Decimal::from_units(u128::MAX))).unwrap();
    // moving order 1 to the full level would overflow its size
    let moved = book.get_order(1).unwrap().with_price(whole(100_100));
    assert_eq!(book.update_order(moved), Err(BookError::SizeOverflow));
    assert_eq!(book.ask_level(whole(100_000)).unwrap().num_orders(), 1);
    assert_eq!(book.ask_level(whole(100_100)).unwrap().num_orders(), 1);
    assert_eq!(book.get_order(1).unwrap().price(), whole(100_000));
    // growing order 2 in place overflows as well
    let grown = book.get_order(1).unwrap().with_size(Decimal::from_units(u128::MAX));
    book.update_order(grown).unwrap();
    let more = book.get_order(1).unwrap();
    book.add_order(ask(3, 100_000, Decimal::zero())).unwrap();
    assert_eq!(book.update_order(ask(3, 100_000, whole(1))), Err(BookError::SizeOverflow));
    assert_eq!(book.get_order(3).unwrap().size(), Decimal::zero());
    assert_eq!(more.size(), Decimal::from_units(u128::MAX));
}

#[test]
fn cancel_and_reuse_id() {
    let mut book = OrderBook::new();
    book.add_order(ask(5, 100_000, whole(3))).unwrap();
    let cancelled = book.remove_order(5).unwrap();
    assert_eq!(cancelled.order_id(), 5);
    assert!(book.ask_level(whole(100_000)).is_none());
    assert_eq!(book.best_ask(), None);
    // the id is free again
    book.add_order(ask(5, 99_800, whole(2))).unwrap();
    assert_eq!(book.best_ask(), Some((whole(99_800), whole(2))));
    assert!(book.ask_level(whole(100_000)).is_none());
    assert_eq!(ids(&book.ask_orders()), vec![5]);
}

#[test]
fn removal_relinks_the_queue() {
    let mut book = OrderBook::new();
    for id in 1..=5u16 {
        book.add_order(ask(id, 100_000, whole(1))).unwrap();
    }
    book.remove_order(3).unwrap();
    assert_eq!(ids(&book.ask_orders()), vec![1, 2, 4, 5]);
    book.remove_order(1).unwrap();
    assert_eq!(ids(&book.ask_orders()), vec![2, 4, 5]);
    assert_eq!(book.ask_level(whole(100_000)).unwrap().head(), Some(2));
    book.remove_order(5).unwrap();
    assert_eq!(ids(&book.ask_orders()), vec![2, 4]);
    assert_eq!(book.ask_level(whole(100_000)).unwrap().tail(), Some(4));
    book.add_order(ask(9, 100_000, whole(1))).unwrap();
    assert_eq!(ids(&book.ask_orders()), vec![2, 4, 9]);
    let level = book.ask_level(whole(100_000)).unwrap();
    assert_eq!(level.num_orders(), 3);
    assert_eq!(level.size(), whole(3));
}

#[test]
fn expired_orders_stay_in_the_level_but_leave_the_best_price() {
    let mut book = OrderBook::new();
    // placed at block 30, to expire with block 50
    let expiring = |o: Order| o.with_expiry_block(50);
    book.add_order(ask(1, 100_000, whole(1))).unwrap();
    book.add_order(expiring(ask(5, 100_000, whole(3)))).unwrap();
    book.add_order(expiring(ask(6, 99_800, whole(2)))).unwrap();
    book.add_order(bid(4, 99_000, dec(5, 1))).unwrap();
    book.add_order(expiring(bid(7, 99_000, dec(7, 1)))).unwrap();
    assert_eq!(book.best_ask(), Some((whole(99_800), whole(2))));
    assert_eq!(book.best_bid(), Some((whole(99_000), dec(12, 1))));

    // nothing expires before block 50
    assert!(book.expire_orders(StateInstant::new(49, 0)).is_empty());
    let expired = book.expire_orders(StateInstant::new(50, 0));
    assert_eq!(ids(&expired), vec![5, 6, 7]);
    assert!(expired.iter().all(|o| o.is_expired()));
    // a second pass finds nothing new
    assert!(book.expire_orders(StateInstant::new(51, 0)).is_empty());

    // best prices skip what is expired
    assert_eq!(book.best_ask(), Some((whole(100_000), whole(1))));
    assert_eq!(book.best_bid(), Some((whole(99_000), dec(5, 1))));
    // levels keep counting the expired orders
    let level = book.ask_level(whole(100_000)).unwrap();
    assert_eq!(level.num_orders(), 2);
    assert_eq!(level.size(), whole(4));
    let gone = book.ask_level(whole(99_800)).unwrap();
    assert_eq!(gone.num_orders(), 1);
    assert_eq!(gone.size(), whole(2));
    assert_eq!(ids(&book.ask_orders()), vec![6, 1, 5]);
    assert!(book.get_order(6).unwrap().is_expired());
    assert!(!book.get_order(1).unwrap().is_expired());
}

#[test]
fn orders_without_expiry_never_expire() {
    let mut book = OrderBook::new();
    book.add_order(ask(1, 100_000, whole(1))).unwrap();
    assert!(book.expire_orders(StateInstant::new(u64::MAX, 0)).is_empty());
    assert!(!book.get_order(1).unwrap().is_expired());
    assert_eq!(book.best_ask(), Some((whole(100_000), whole(1))));
}

#[test]
fn view_limits_depth_and_orders_per_level() {
    let mut book = OrderBook::new();
    book.add_order(ask(1, 100_000, whole(1))).unwrap();
    book.add_order(ask(2, 100_000, whole(1)).with_expiry_block(5)).unwrap();
    book.add_order(ask(3, 100_000, whole(1))).unwrap();
    book.add_order(ask(4, 100_100, whole(1)).with_expiry_block(5)).unwrap();
    book.add_order(ask(5, 100_200, whole(1))).unwrap();
    book.add_order(bid(6, 99_000, whole(1))).unwrap();
    book.expire_orders(StateInstant::new(5, 0));

    let all = OrderBookView::new(&book, None, None, true);
    assert_eq!(all.asks.len(), 3);
    assert_eq!(all.bids.len(), 1);
    assert_eq!(all.num_ask_levels, 3);
    assert_eq!(ids(&all.asks[0].orders), vec![1, 2, 3]);
    assert_eq!(ids(&all.asks[1].orders), vec![4]);
    assert_eq!(all.asks[0].num_orders, 3);
    assert_eq!(all.asks[0].size, whole(3));
    assert_eq!(all.best_ask, Some((whole(100_000), whole(2))));
    assert_eq!(all.best_bid, Some((whole(99_000), whole(1))));

    // a level with all orders expired is still shown, without its expired orders
    let live = book.view_of(None, None, false);
    assert_eq!(live.asks.len(), 3);
    assert_eq!(ids(&live.asks[0].orders), vec![1, 3]);
    assert!(live.asks[1].orders.is_empty());
    assert_eq!(live.asks[1].num_orders, 1);
    assert_eq!(live.asks[1].price, whole(100_100));

    let shallow = book.view_of(Some(2), Some(2), true);
    assert_eq!(shallow.asks.len(), 2);
    assert_eq!(shallow.num_ask_levels, 3);
    assert_eq!(ids(&shallow.asks[0].orders), vec![1, 2]);
    assert_eq!(shallow.asks[0].cumulative_size, Some(whole(3)));
    assert_eq!(shallow.asks[1].cumulative_size, Some(whole(4)));
    assert_eq!(shallow.ask_totals.num_levels, 3);
    assert_eq!(shallow.ask_totals.num_orders, 5);
    assert_eq!(shallow.ask_totals.size, Some(whole(5)));
    assert_eq!(shallow.bid_totals.num_orders, 1);
    assert_eq!(shallow.bid_totals.size, Some(whole(1)));
    // five sixths and one sixth, as far as eighteen digits go
    let (ask_share, bid_share) = shallow.shares().unwrap();
    assert_eq!(ask_share.units() / 1_000_000_000_000, 83_333_333);
    assert_eq!(bid_share.units() / 1_000_000_000_000, 16_666_666);
    assert_eq!(shallow.spread(), Some(whole(1_000)));
    let narrow = book.view_of(Some(1), Some(1), false);
    assert_eq!(ids(&narrow.asks[0].orders), vec![1]);
    let none = book.view_of(Some(0), Some(0), true);
    assert!(none.asks.is_empty() && none.bids.is_empty());
    // the view left the book as it was
    assert_eq!(ids(&book.ask_orders()), vec![1, 2, 3, 4, 5]);
}

#[test]
fn view_of_an_empty_book() {
    let view = OrderBookView::new(&OrderBook::new(), Some(3), None, false);
    assert!(view.asks.is_empty() && view.bids.is_empty());
    assert_eq!(view.ask_totals.num_orders, 0);
    assert_eq!(view.ask_totals.size, Some(Decimal::zero()));
    assert_eq!(view.shares(), None);
    assert_eq!(view.spread(), None);
    assert_eq!(view.depth, Some(3));
    assert_eq!(view.orders_per_level, None);
    assert!(!view.show_expired);
}

#[test]
fn names_of_types_and_sides() {
    assert_eq!(OrderType::OpenLong.name(false), "Open Long");
    assert_eq!(OrderType::OpenShort.name(false), "Open Short");
    assert_eq!(OrderType::CloseLong.name(false), "Close Long");
    assert_eq!(OrderType::CloseShort.name(false), "Close Short");
    assert_eq!(OrderType::OpenLong.name(true), "OL");
    assert_eq!(OrderType::OpenShort.name(true), "OS");
    assert_eq!(OrderType::CloseLong.name(true), "CL");
    assert_eq!(OrderType::CloseShort.name(true), "CS");
    assert_eq!(OrderSide::Ask.name(), "Ask");
    assert_eq!(OrderSide::Bid.name(), "Bid");
}

#[test]
fn duplicate_is_an_equal_book() {
    let mut book = OrderBook::new();
    book.add_order(ask(1, 100_000, whole(1))).unwrap();
    book.add_order(bid(2, 99_000, whole(2))).unwrap();
    let mut copy = book.duplicate();
    assert_eq!(copy.best_ask(), book.best_ask());
    assert_eq!(copy.best_bid(), book.best_bid());
    copy.remove_order(1).unwrap();
    assert!(book.contains(1));
    assert!(!copy.contains(1));
}

#[test]
fn many_levels_stay_sorted() {
    let mut book = OrderBook::new();
    let prices = [105u64, 101, 109, 103, 107, 102, 108, 104, 106, 100];
    for (i, p) in prices.iter().enumerate() {
        book.add_order(ask((i + 1) as u16, *p, whole(1))).unwrap();
        book.add_order(bid((i + 101) as u16, *p - 50, whole(1))).unwrap();
    }
    let asks: Vec<Decimal> = book.asks().iter().map(|l| l.price()).collect();
    let bids: Vec<Decimal> = book.bids().iter().map(|l| l.price()).collect();
    assert_eq!(asks, (100..110u64).map(whole).collect::<Vec<_>>());
    assert_eq!(bids, (50..60u64).rev().map(whole).collect::<Vec<_>>());
    book.remove_order(10).unwrap();
    book.remove_order(103).unwrap();
    assert_eq!(book.best_ask(), Some((whole(101), whole(1))));
    assert_eq!(book.best_bid(), Some((whole(58), whole(1))));
    assert_eq!(book.asks().len(), 9);
    assert_eq!(book.bids().len(), 9);
}
