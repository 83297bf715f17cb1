use perpl_sdk::error::DexError;
use perpl_sdk::num::{Converter, Decimal};
use perpl_sdk::state::watch::{awaited, request_ids};
use perpl_sdk::state::{Exchange, Perpetual, PerpetualInfo, PositionType};
use perpl_sdk::types::{
    Address, BlockEvents, EventContext, ExchangeEvent, OrderSide, OrderType, RawBlockEvents,
    RawEvent, StateBlockEvents, StateEvent, StateInstant, TxHash,
};
use perpl_sdk::Chain;

const P: u32 = 16;
const M: u32 = 0;
const T: u32 = 1;

fn dec(raw: u128, decimals: u8) -> Decimal {
    Converter::new(decimals).from_unsigned(raw).unwrap()
}

fn whole(n: u64) -> Decimal {
    Decimal::from_integer(n)
}

/// Prices with one fractional digit, sizes with five, collateral with six.
fn fresh_exchange() -> Exchange {
    let mut exchange = Exchange::new(
        Chain::custom(1, Address::zero(), 0, Address::new(1, 2), vec![P]),
        StateInstant::new(29, 1_000),
        Converter::new(6),
        100,
        whole(1),
        whole(1),
        whole(0),
        false,
    );
    let info = PerpetualInfo {
        name: "BTC".to_string(),
        symbol: "BTC".to_string(),
        paused: false,
        price_decimals: 1,
        lot_decimals: 5,
        base_price_pns: 0,
        mark_pns: 1_000_000,
        mark_timestamp: 900,
        index_pns: 1_000_000,
        index_timestamp: 900,
        oracle_pns: 1_000_000,
        oracle_timestamp_sec: 900,
        funding_start_block: 8571,
        ref_price_max_age_sec: 60,
        long_open_interest_lns: 0,
    };
    let perp = Perpetual::new(StateInstant::new(29, 1_000), P, &info, 10, 35, 1000, 2000).unwrap();
    exchange.insert_perpetual(perp).unwrap();
    exchange
}

fn tx(n: u64) -> TxHash {
    TxHash::new(0, n as u128 + 1)
}

struct Block {
    number: u64,
    events: Vec<RawEvent>,
    tx_index: u64,
    log_index: u64,
}

impl Block {
    fn new(number: u64) -> Block {
        Block { number, events: Vec::new(), tx_index: 0, log_index: 0 }
    }

    fn next_tx(mut self) -> Block {
        self.tx_index += 1;
        self
    }

    fn event(mut self, event: ExchangeEvent) -> Block {
        self.events.push(EventContext::new(tx(self.tx_index), self.tx_index, self.log_index, event));
        self.log_index += 1;
        self
    }

    fn request(self, account: u32, request_id: u64, request_type: u8, order_id: u16, price: u128, lot: u128, expiry: u64) -> Block {
        self.event(ExchangeEvent::OrderRequest {
            account_id: account,
            request_id,
            perpetual_id: P,
            request_type,
            order_id,
            price_pns: price,
            lot_lns: lot,
            expiry_block: expiry,
            leverage_hdths: 1000,
            post_only: false,
            fill_or_kill: false,
            immediate_or_cancel: false,
        })
    }

    fn placed(self, order_id: u16, lot: u128, locked: u128) -> Block {
        self.event(ExchangeEvent::OrderPlaced { order_id, lot_lns: lot, locked_balance_cns: locked })
    }

    fn maker_fill(self, account: u32, order_id: u16, price: u128, lot: u128) -> Block {
        self.event(ExchangeEvent::MakerOrderFilled {
            perpetual_id: P,
            account_id: account,
            order_id,
            price_pns: price,
            lot_lns: lot,
            fee_cns: 1_000,
        })
    }

    fn taker_fill(self) -> Block {
        self.event(ExchangeEvent::TakerOrderFilled { fee_cns: 3_500 })
    }

    fn done(self) -> Block {
        self.event(ExchangeEvent::OrderBatchCompleted)
    }

    fn build(self) -> RawBlockEvents {
        BlockEvents::new(StateInstant::new(self.number, 1_000 + self.number), self.events)
    }
}

const OPEN_LONG: u8 = 0;
const OPEN_SHORT: u8 = 1;
const CLOSE_LONG: u8 = 2;
const CANCEL: u8 = 4;
const CHANGE: u8 = 5;

fn flat(events: &Option<StateBlockEvents>) -> Vec<&StateEvent> {
    match events {
        Some(block) => block.events().iter().flat_map(|g| g.event().iter()).collect(),
        None => Vec::new(),
    }
}

/// M places an ask of size 1 at 100000; T takes 0.1 of it.
fn basic_maker_taker() -> (Exchange, Vec<Option<StateBlockEvents>>) {
    let mut exchange = fresh_exchange();
    let first = Block::new(30)
        .request(M, 1, OPEN_SHORT, 0, 1_000_000, 100_000, 0)
        .placed(1, 100_000, 5_000_000)
        .done()
        .build();
    let second = Block::new(31)
        .request(T, 2, OPEN_LONG, 0, 1_000_000, 10_000, 0)
        .maker_fill(M, 1, 1_000_000, 10_000)
        .taker_fill()
        .done()
        .build();
    let a = exchange.apply_events(&first).unwrap();
    let b = exchange.apply_events(&second).unwrap();
    (exchange, vec![a, b])
}

#[test]
fn basic_maker_and_taker() {
    let (exchange, reported) = basic_maker_taker();
    assert_eq!(exchange.instant(), StateInstant::new(31, 1_031));
    let perp = exchange.perpetual(P).unwrap();
    let book = perp.l3_book();
    let level = book.ask_level(whole(100_000)).unwrap();
    assert_eq!(level.num_orders(), 1);
    assert_eq!(level.size(), dec(9, 1));
    assert_eq!(book.best_ask(), Some((whole(100_000), dec(9, 1))));
    assert_eq!(book.best_bid(), None);
    let order = perp.get_order(1).unwrap();
    assert_eq!(order.order_type(), OrderType::OpenShort);
    assert_eq!(order.price(), whole(100_000));
    assert_eq!(order.size(), dec(9, 1));
    assert_eq!(order.placed_size(), Some(whole(1)));
    assert_eq!(order.filled_size(), Some(dec(1, 1)));
    assert_eq!(order.client_order_id(), Some(1));
    assert_eq!(order.request_id(), Some(2));
    assert_eq!(order.leverage(), whole(10));
    assert_eq!(perp.open_interest(), dec(1, 1));

    let maker = exchange.account(M).unwrap();
    assert_eq!(maker.positions().len(), 1);
    let position = maker.position(P).unwrap();
    assert_eq!(position.position_type(), PositionType::Short);
    assert_eq!(position.size(), dec(1, 1));
    assert_eq!(position.entry_price(), whole(100_000));
    assert!(maker.address().is_zero());
    let taker = exchange.account(T).unwrap();
    let position = taker.position(P).unwrap();
    assert_eq!(position.position_type(), PositionType::Long);
    assert_eq!(position.size(), dec(1, 1));
    assert_eq!(position.entry_price(), whole(100_000));

    // the first block reports the placement
    let first = flat(&reported[0]);
    assert_eq!(first.len(), 1);
    match first[0] {
        StateEvent::OrderPlaced(e) => {
            assert_eq!(e.perpetual_id, P);
            assert_eq!(e.request_id, Some(1));
            assert_eq!(e.order.order_id(), 1);
            assert_eq!(e.order.size(), whole(1));
        },
        other => panic!("unexpected event {:?}", other),
    }
    let groups = reported[0].as_ref().unwrap();
    assert_eq!(groups.instant(), StateInstant::new(30, 1_030));
    assert_eq!(groups.events()[0].tx_index(), 0);
    assert_eq!(groups.events()[0].log_index(), 1);
    assert_eq!(groups.events()[0].tx_hash(), tx(0));

    // the second the maker fill, the taker fill and the trade
    let second = flat(&reported[1]);
    assert_eq!(second.len(), 3);
    match second[0] {
        StateEvent::MakerFilled { order, price, size, fee } => {
            assert_eq!(order.order.order_id(), 1);
            assert_eq!(order.order.size(), dec(9, 1));
            assert_eq!(order.request_id, Some(2));
            assert_eq!(*price, whole(100_000));
            assert_eq!(*size, dec(1, 1));
            assert_eq!(*fee, dec(1, 3));
        },
        other => panic!("unexpected event {:?}", other),
    }
    assert_eq!(second[0].as_order_event().unwrap().order.order_id(), 1);
    match second[1] {
        StateEvent::TakerFilled { perpetual_id, account_id, request_id, side, fee } => {
            assert_eq!((*perpetual_id, *account_id, *request_id), (P, T, Some(2)));
            assert_eq!(*side, OrderSide::Bid);
            assert_eq!(*fee, dec(35, 4));
        },
        other => panic!("unexpected event {:?}", other),
    }
    let trade = second[2].as_trade().unwrap();
    assert_eq!(trade.perpetual_id, P);
    assert_eq!(trade.taker_account_id, T);
    assert_eq!(trade.taker_side, OrderSide::Bid);
    assert_eq!(trade.maker_fills.len(), 1);
    assert_eq!(trade.maker_fills[0].maker_order_id, 1);
    assert_eq!(trade.maker_fills[0].maker_account_id, M);
    assert_eq!(trade.total_size(), Some(dec(1, 1)));
    assert_eq!(trade.avg_price(), Some(whole(100_000)));
    assert!(second[1].as_trade().is_none());
    assert!(second[1].as_order_event().is_none());
}

#[test]
fn blocks_must_follow_each_other() {
    let (mut exchange, _) = basic_maker_taker();
    let before = exchange.duplicate();
    for number in [31u64, 30, 33, 0, u64::MAX] {
        let block = Block::new(number).request(M, 9, OPEN_SHORT, 0, 1_000_000, 1, 0).placed(9, 1, 0).build();
        assert_eq!(
            exchange.apply_events(&block).unwrap_err(),
            DexError::BlockOutOfOrder { current: 31, found: number }
        );
        assert_eq!(exchange.instant(), before.instant());
        assert!(exchange.perpetual(P).unwrap().get_order(9).is_none());
    }
    // the next block goes through, and moves the instant by one block
    let next = Block::new(32).build();
    assert!(exchange.apply_events(&next).unwrap().is_none());
    assert_eq!(exchange.instant().block_number(), 32);
    assert_eq!(exchange.instant().block_timestamp(), 1_032);
}

#[test]
fn a_failing_event_leaves_the_exchange_as_it_was() {
    let (mut exchange, _) = basic_maker_taker();
    // the first events of the block are fine, the last one fails
    let block = Block::new(32)
        .event(ExchangeEvent::AccountFrozen { account_id: M, frozen: true })
        .event(ExchangeEvent::ExchangeHalted)
        .request(M, 3, OPEN_SHORT, 0, 1_001_000, 50_000, 0)
        .placed(2, 50_000, 1)
        .placed(2, 50_000, 1)
        .build();
    assert_eq!(exchange.apply_events(&block).unwrap_err(), DexError::DuplicateOrderId(P, 2));
    assert_eq!(exchange.instant(), StateInstant::new(31, 1_031));
    assert!(!exchange.is_halted());
    assert!(!exchange.account(M).unwrap().frozen());
    assert!(exchange.perpetual(P).unwrap().get_order(2).is_none());
    assert!(exchange.perpetual(P).unwrap().l3_book().ask_level(dec(1_001_000, 1)).is_none());
    // the same block without the faulty event goes through
    let block = Block::new(32)
        .event(ExchangeEvent::AccountFrozen { account_id: M, frozen: true })
        .event(ExchangeEvent::ExchangeHalted)
        .request(M, 3, OPEN_SHORT, 0, 1_001_000, 50_000, 0)
        .placed(2, 50_000, 1)
        .build();
    exchange.apply_events(&block).unwrap();
    assert!(exchange.is_halted());
    assert!(exchange.account(M).unwrap().frozen());
    assert_eq!(exchange.perpetual(P).unwrap().get_order(2).unwrap().size(), dec(5, 1));
}

#[test]
fn order_id_zero_is_an_error() {
    let events = [
        ExchangeEvent::OrderPlaced { order_id: 0, lot_lns: 1, locked_balance_cns: 0 },
        ExchangeEvent::OrderChanged { order_id: 0, price_pns: 1, lot_lns: 1, expiry_block: 0, locked_balance_cns: 0 },
        ExchangeEvent::OrderCancelled { order_id: 0, locked_balance_cns: 0 },
        ExchangeEvent::MakerOrderFilled { perpetual_id: P, account_id: M, order_id: 0, price_pns: 1, lot_lns: 1, fee_cns: 0 },
    ];
    for event in events {
        let mut exchange = fresh_exchange();
        let block = Block::new(30).request(M, 1, OPEN_SHORT, 0, 1_000_000, 100_000, 0).event(event).build();
        assert_eq!(exchange.apply_events(&block).unwrap_err(), DexError::InvalidOrderId);
        assert_eq!(exchange.instant().block_number(), 29);
    }
}

#[test]
fn order_events_need_an_open_request() {
    let mut exchange = fresh_exchange();
    let block = Block::new(30).placed(1, 100_000, 0).build();
    assert_eq!(exchange.apply_events(&block).unwrap_err(), DexError::MissingOrderContext);
    // the request does not reach into the next transaction
    let block = Block::new(30)
        .request(M, 1, OPEN_SHORT, 0, 1_000_000, 100_000, 0)
        .next_tx()
        .placed(1, 100_000, 0)
        .build();
    assert_eq!(exchange.apply_events(&block).unwrap_err(), DexError::MissingOrderContext);
    // nor past the end of its batch
    let block = Block::new(30)
        .request(M, 1, OPEN_SHORT, 0, 1_000_000, 100_000, 0)
        .done()
        .placed(1, 100_000, 0)
        .build();
    assert_eq!(exchange.apply_events(&block).unwrap_err(), DexError::MissingOrderContext);
    // a request that places no order cannot place one
    let block = Block::new(30).request(M, 1, CANCEL, 1, 0, 0, 0).placed(1, 100_000, 0).build();
    assert_eq!(exchange.apply_events(&block).unwrap_err(), DexError::InvalidEvent);
}

#[test]
fn unknown_orders_are_errors() {
    let mut exchange = fresh_exchange();
    let block = Block::new(30).request(M, 1, CANCEL, 7, 0, 0, 0)
        .event(ExchangeEvent::OrderCancelled { order_id: 7, locked_balance_cns: 0 }).build();
    assert_eq!(exchange.apply_events(&block).unwrap_err(), DexError::OrderNotFound(P, 7));
    let block = Block::new(30).request(M, 1, CHANGE, 7, 1, 1, 0)
        .event(ExchangeEvent::OrderChanged { order_id: 7, price_pns: 1, lot_lns: 1, expiry_block: 0, locked_balance_cns: 0 }).build();
    assert_eq!(exchange.apply_events(&block).unwrap_err(), DexError::OrderNotFound(P, 7));
    let block = Block::new(30).maker_fill(M, 7, 1_000_000, 1).build();
    assert_eq!(exchange.apply_events(&block).unwrap_err(), DexError::OrderNotFound(P, 7));
}

#[test]
fn a_fill_beyond_the_order_is_an_error() {
    let (mut exchange, _) = basic_maker_taker();
    let block = Block::new(32).request(T, 3, OPEN_LONG, 0, 1_000_000, 95_000, 0).maker_fill(M, 1, 1_000_000, 95_000).build();
    assert_eq!(exchange.apply_events(&block).unwrap_err(), DexError::InvalidEvent);
    assert_eq!(exchange.perpetual(P).unwrap().get_order(1).unwrap().size(), dec(9, 1));
}

#[test]
fn fifo_and_id_reuse_within_one_transaction() {
    let mut exchange = fresh_exchange();
    let makers = Block::new(30)
        .request(M, 1, OPEN_SHORT, 0, 1_000_000, 100_000, 0)
        .placed(1, 100_000, 0)
        .done()
        .next_tx()
        .request(M, 2, OPEN_SHORT, 0, 1_000_000, 200_000, 0)
        .placed(2, 200_000, 0)
        .done()
        .build();
    exchange.apply_events(&makers).unwrap();
    // T buys 3.5 at up to 100000: takes all of order 1 and of order 2, and the
    // rest is placed under the id that order 1 vacated
    let taker = Block::new(31)
        .request(T, 3, OPEN_LONG, 0, 1_000_000, 350_000, 0)
        .maker_fill(M, 1, 1_000_000, 100_000)
        .maker_fill(M, 2, 1_000_000, 200_000)
        .taker_fill()
        .placed(1, 50_000, 0)
        .done()
        .build();
    let reported = exchange.apply_events(&taker).unwrap();
    let perp = exchange.perpetual(P).unwrap();
    assert!(perp.get_order(2).is_none());
    let resting = perp.get_order(1).unwrap();
    assert_eq!(resting.order_type(), OrderType::OpenLong);
    assert_eq!(resting.account_id(), T);
    assert_eq!(resting.size(), dec(5, 1));
    assert!(perp.l3_book().ask_level(whole(100_000)).is_none());
    assert_eq!(perp.l3_book().best_bid(), Some((whole(100_000), dec(5, 1))));
    assert_eq!(perp.l3_book().best_ask(), None);
    assert_eq!(exchange.account(T).unwrap().position(P).unwrap().size(), whole(3));
    assert_eq!(exchange.account(M).unwrap().position(P).unwrap().size(), whole(3));
    assert_eq!(perp.open_interest(), whole(3));
    let events = flat(&reported);
    assert_eq!(events.len(), 5);
    let trade = events[3].as_trade().unwrap();
    assert_eq!(trade.maker_fills.len(), 2);
    assert_eq!(trade.total_size(), Some(whole(3)));
    assert_eq!(trade.total_maker_fees(), Some(dec(2, 3)));

    // without the removal the id is taken
    let again = Block::new(32).request(M, 4, OPEN_SHORT, 0, 1_001_000, 1, 0).placed(1, 1, 0).build();
    assert_eq!(exchange.apply_events(&again).unwrap_err(), DexError::DuplicateOrderId(P, 1));
}

#[test]
fn partial_fifo_fill() {
    let mut exchange = fresh_exchange();
    let makers = Block::new(30)
        .request(M, 1, OPEN_SHORT, 0, 1_000_000, 100_000, 0)
        .placed(1, 100_000, 0)
        .done()
        .request(M, 2, OPEN_SHORT, 0, 1_000_000, 200_000, 0)
        .placed(2, 200_000, 0)
        .done()
        .build();
    exchange.apply_events(&makers).unwrap();
    let taker = Block::new(31)
        .request(T, 3, OPEN_LONG, 0, 1_000_000, 150_000, 0)
        .maker_fill(M, 1, 1_000_000, 100_000)
        .maker_fill(M, 2, 1_000_000, 50_000)
        .taker_fill()
        .done()
        .build();
    exchange.apply_events(&taker).unwrap();
    let perp = exchange.perpetual(P).unwrap();
    assert!(perp.get_order(1).is_none());
    assert_eq!(perp.get_order(2).unwrap().size(), dec(15, 1));
    let level = perp.l3_book().ask_level(whole(100_000)).unwrap();
    assert_eq!(level.num_orders(), 1);
    assert_eq!(level.size(), dec(15, 1));
}

#[test]
fn change_moves_the_order_and_cancel_removes_it() {
    let mut exchange = fresh_exchange();
    exchange.apply_events(
        &Block::new(30)
            .event(ExchangeEvent::AccountCreated { account_id: M, address: Address::new(7, 7) })
            .event(ExchangeEvent::BalanceChanged { account_id: M, balance_cns: 1_000_000_000_000 })
            .next_tx()
            .request(M, 1, OPEN_SHORT, 0, 1_000_000, 100_000, 0).placed(1, 100_000, 10_000_000).done()
            .request(M, 2, OPEN_SHORT, 0, 1_000_000, 100_000, 0).placed(2, 100_000, 20_000_000).done()
            .request(M, 3, OPEN_SHORT, 0, 1_000_000, 100_000, 0).placed(3, 100_000, 30_000_000).done()
            .build(),
    ).unwrap();
    let account = exchange.account(M).unwrap();
    assert_eq!(account.address(), Address::new(7, 7));
    assert_eq!(account.balance(), whole(1_000_000));
    assert_eq!(account.locked_balance(), whole(30));
    assert_eq!(account.available_balance(), whole(999_970));

    let reported = exchange.apply_events(
        &Block::new(31)
            .request(M, 10, CHANGE, 2, 999_000, 100_000, 77)
            .event(ExchangeEvent::OrderChanged { order_id: 2, price_pns: 999_000, lot_lns: 100_000, expiry_block: 77, locked_balance_cns: 29_000_000 })
            .done()
            .build(),
    ).unwrap();
    let perp = exchange.perpetual(P).unwrap();
    let book = perp.l3_book();
    assert_eq!(book.ask_level(whole(100_000)).unwrap().num_orders(), 2);
    assert_eq!(book.ask_level(whole(100_000)).unwrap().size(), whole(2));
    assert_eq!(book.ask_level(whole(99_900)).unwrap().size(), whole(1));
    assert_eq!(book.best_ask(), Some((whole(99_900), whole(1))));
    let ids: Vec<u16> = book.ask_orders().iter().map(|o| o.order_id()).collect();
    assert_eq!(ids, vec![2, 1, 3]);
    let changed = perp.get_order(2).unwrap();
    assert_eq!(changed.expiry_block(), 77);
    assert_eq!(changed.request_id(), Some(10));
    assert_eq!(changed.client_order_id(), Some(2));
    assert_eq!(exchange.account(M).unwrap().locked_balance(), whole(29));
    assert!(matches!(flat(&reported)[0], StateEvent::OrderChanged(e) if e.order.order_id() == 2));

    // T cancels nothing of M's locked balance; M does
    let reported = exchange.apply_events(
        &Block::new(32)
            .request(T, 11, CANCEL, 1, 0, 0, 0)
            .event(ExchangeEvent::OrderCancelled { order_id: 1, locked_balance_cns: 1 })
            .done()
            .request(M, 12, CANCEL, 3, 0, 0, 0)
            .event(ExchangeEvent::OrderCancelled { order_id: 3, locked_balance_cns: 9_000_000 })
            .done()
            .build(),
    ).unwrap();
    let perp = exchange.perpetual(P).unwrap();
    assert!(perp.get_order(1).is_none());
    assert!(perp.get_order(3).is_none());
    assert!(perp.l3_book().ask_level(whole(100_000)).is_none());
    assert_eq!(exchange.account(M).unwrap().locked_balance(), whole(9));
    let events = flat(&reported);
    assert_eq!(events.len(), 2);
    assert!(matches!(events[1], StateEvent::OrderCancelled(e) if e.order.order_id() == 3 && e.request_id == Some(12)));
}

#[test]
fn orders_expire_at_the_end_of_their_block() {
    let mut exchange = fresh_exchange();
    exchange.apply_events(
        &Block::new(30)
            .request(M, 1, OPEN_SHORT, 0, 1_000_000, 300_000, 32).placed(5, 300_000, 0).done()
            .request(M, 2, OPEN_SHORT, 0, 998_000, 200_000, 32).placed(6, 200_000, 0).done()
            .request(M, 3, OPEN_SHORT, 0, 999_000, 100_000, 0).placed(3, 100_000, 0).done()
            .request(T, 4, OPEN_LONG, 0, 990_000, 70_000, 32).placed(7, 70_000, 0).done()
            .build(),
    ).unwrap();
    let book = exchange.perpetual(P).unwrap().l3_book();
    assert_eq!(book.best_ask(), Some((whole(99_800), whole(2))));
    assert_eq!(book.best_bid(), Some((whole(99_000), dec(7, 1))));

    assert!(exchange.apply_events(&Block::new(31).build()).unwrap().is_none());
    let reported = exchange.apply_events(&Block::new(32).build()).unwrap();
    let events = flat(&reported);
    let expired: Vec<u16> = events
        .iter()
        .map(|e| match e {
            StateEvent::OrderExpired(e) => e.order.order_id(),
            other => panic!("unexpected event {:?}", other),
        })
        .collect();
    assert_eq!(expired, vec![5, 6, 7]);
    let group = &reported.as_ref().unwrap().events()[0];
    assert_eq!((group.tx_index(), group.log_index()), (u64::MAX, u64::MAX));

    let perp = exchange.perpetual(P).unwrap();
    let book = perp.l3_book();
    assert_eq!(book.best_ask(), Some((whole(99_900), whole(1))));
    assert_eq!(book.best_bid(), None);
    // the orders are still there
    assert!(perp.get_order(5).unwrap().is_expired());
    assert!(perp.get_order(6).unwrap().is_expired());
    assert!(!perp.get_order(3).unwrap().is_expired());
    assert_eq!(book.ask_level(whole(100_000)).unwrap().num_orders(), 1);
    // and expire only once
    assert!(exchange.apply_events(&Block::new(33).build()).unwrap().is_none());
}

#[test]
fn positions_follow_the_fills() {
    let (mut exchange, _) = basic_maker_taker();
    // T sells 0.04 of its 0.1 to M's new bid at 100100
    exchange.apply_events(
        &Block::new(32)
            .request(M, 20, OPEN_LONG, 0, 1_001_000, 100_000, 0).placed(2, 100_000, 0).done()
            .next_tx()
            .request(T, 21, CLOSE_LONG, 0, 1_001_000, 4_000, 0)
            .maker_fill(M, 2, 1_001_000, 4_000)
            .taker_fill()
            .done()
            .build(),
    ).unwrap();
    let taker = exchange.account(T).unwrap().position(P).unwrap();
    assert_eq!(taker.position_type(), PositionType::Long);
    assert_eq!(taker.size(), dec(6, 2));
    assert_eq!(taker.entry_price(), whole(100_000));
    let maker = exchange.account(M).unwrap().position(P).unwrap();
    assert_eq!(maker.position_type(), PositionType::Short);
    assert_eq!(maker.size(), dec(6, 2));
    assert_eq!(exchange.perpetual(P).unwrap().open_interest(), dec(6, 2));

    // T sells the rest and 0.04 more: its position turns around
    exchange.apply_events(
        &Block::new(33)
            .request(T, 22, OPEN_SHORT, 0, 1_001_000, 10_000, 0)
            .maker_fill(M, 2, 1_001_000, 10_000)
            .taker_fill()
            .done()
            .build(),
    ).unwrap();
    let taker = exchange.account(T).unwrap().position(P).unwrap();
    assert_eq!(taker.position_type(), PositionType::Short);
    assert_eq!(taker.size(), dec(4, 2));
    assert_eq!(taker.entry_price(), dec(1_001_000, 1));
    let maker = exchange.account(M).unwrap().position(P).unwrap();
    assert_eq!(maker.position_type(), PositionType::Long);
    assert_eq!(maker.size(), dec(4, 2));
    assert_eq!(exchange.perpetual(P).unwrap().open_interest(), dec(4, 2));

    // M buys 0.04 more from T at 100000: sizes add up, prices average
    exchange.apply_events(
        &Block::new(34)
            .request(T, 23, OPEN_SHORT, 0, 1_000_000, 4_000, 0).placed(3, 4_000, 0).done()
            .next_tx()
            .request(M, 24, OPEN_LONG, 0, 1_000_000, 4_000, 0)
            .maker_fill(T, 3, 1_000_000, 4_000)
            .taker_fill()
            .done()
            .build(),
    ).unwrap();
    let maker = exchange.account(M).unwrap().position(P).unwrap();
    assert_eq!(maker.size(), dec(8, 2));
    assert_eq!(maker.entry_price(), dec(1_000_500, 1));
    assert!(exchange.perpetual(P).unwrap().get_order(3).is_none());

    // closing everything removes the positions
    exchange.apply_events(
        &Block::new(35)
            .request(T, 25, OPEN_LONG, 0, 1_000_000, 8_000, 0).placed(4, 8_000, 0).done()
            .next_tx()
            .request(M, 26, CLOSE_LONG, 0, 1_000_000, 8_000, 0)
            .maker_fill(T, 4, 1_000_000, 8_000)
            .taker_fill()
            .done()
            .build(),
    ).unwrap();
    assert!(exchange.account(M).unwrap().position(P).is_none());
    assert!(exchange.account(T).unwrap().position(P).is_none());
    assert_eq!(exchange.account(M).unwrap().positions().len(), 0);
    assert_eq!(exchange.perpetual(P).unwrap().open_interest(), Decimal::zero());
}

#[test]
fn maker_fills_of_another_transaction_make_no_trade() {
    let mut exchange = fresh_exchange();
    exchange.apply_events(
        &Block::new(30).request(M, 1, OPEN_SHORT, 0, 1_000_000, 100_000, 0).placed(1, 100_000, 0).done().build(),
    ).unwrap();
    // the taker fill carries the hash of another transaction than the maker fill
    let mut block = Block::new(31)
        .request(T, 2, OPEN_LONG, 0, 1_000_000, 10_000, 0)
        .maker_fill(M, 1, 1_000_000, 10_000)
        .build();
    let stray = EventContext::new(TxHash::new(9, 9), 0, 2, ExchangeEvent::TakerOrderFilled { fee_cns: 1 });
    let mut events = block.events().clone();
    events.push(stray);
    block = BlockEvents::new(block.instant(), events);
    let reported = exchange.apply_events(&block).unwrap();
    let events = flat(&reported);
    assert_eq!(events.len(), 2);
    assert!(matches!(events[0], StateEvent::MakerFilled { .. }));
    assert!(matches!(events[1], StateEvent::TakerFilled { .. }));
}

#[test]
fn prices_and_parameters_are_updated() {
    let mut exchange = fresh_exchange();
    let reported = exchange.apply_events(
        &Block::new(30)
            .event(ExchangeEvent::MarkPriceUpdated { perpetual_id: P, price_pns: 1_000_010 })
            .event(ExchangeEvent::OraclePriceUpdated { perpetual_id: P, price_pns: 1_000_020 })
            .event(ExchangeEvent::LastPriceUpdated { perpetual_id: P, price_pns: 1_001_000 })
            .event(ExchangeEvent::PerpetualPaused { perpetual_id: P, paused: true })
            .event(ExchangeEvent::MakerFeeChanged { perpetual_id: P, fee: 20 })
            .event(ExchangeEvent::TakerFeeChanged { perpetual_id: P, fee: 40 })
            .event(ExchangeEvent::InitialMarginChanged { perpetual_id: P, margin_hdths: 500 })
            .event(ExchangeEvent::MaintenanceMarginChanged { perpetual_id: P, margin_hdths: 250 })
            .event(ExchangeEvent::PriceMaxAgeChanged { perpetual_id: P, max_age: 5 })
            .event(ExchangeEvent::MarkPriceUpdated { perpetual_id: 999, price_pns: 1 })
            .event(ExchangeEvent::Other)
            .build(),
    ).unwrap();
    assert_eq!(flat(&reported).len(), 9);
    let perp = exchange.perpetual(P).unwrap();
    assert_eq!(perp.mark_price(), dec(1_000_010, 1));
    assert_eq!(perp.mark_price_block(), Some(30));
    assert_eq!(perp.mark_price_timestamp(), 1_030);
    assert_eq!(perp.oracle_price(), dec(1_000_020, 1));
    assert_eq!(perp.oracle_price_block(), Some(30));
    assert_eq!(perp.last_price(), dec(1_001_000, 1));
    assert_eq!(perp.last_price_block(), Some(30));
    assert!(perp.is_paused());
    assert_eq!(perp.maker_fee(), dec(20, 5));
    assert_eq!(perp.taker_fee(), dec(40, 5));
    assert_eq!(perp.initial_margin(), whole(5));
    assert_eq!(perp.maintenance_margin(), dec(25, 1));
    assert_eq!(perp.price_max_age(), 5);
    assert_eq!(perp.instant(), StateInstant::new(30, 1_030));
    assert!(!perp.is_mark_price_obsolete());
    // five seconds on, the prices are obsolete
    exchange.apply_events(&Block::new(31).build()).unwrap();
    exchange.apply_events(
        &Block::new(32).event(ExchangeEvent::PerpetualPaused { perpetual_id: P, paused: false }).build(),
    ).unwrap();
    exchange.apply_events(&Block::new(33).build()).unwrap();
    exchange.apply_events(&Block::new(34).build()).unwrap();
    exchange.apply_events(
        &Block::new(35).event(ExchangeEvent::OraclePriceUpdated { perpetual_id: P, price_pns: 1_000_020 }).build(),
    ).unwrap();
    let perp = exchange.perpetual(P).unwrap();
    assert!(perp.is_mark_price_obsolete());
    assert!(!perp.is_oracle_price_obsolete());
    assert!(!perp.is_paused());
}

#[test]
fn accounts_follow_their_events() {
    let mut exchange = fresh_exchange();
    let reported = exchange.apply_events(
        &Block::new(30)
            .event(ExchangeEvent::AccountFrozen { account_id: 5, frozen: true })
            .event(ExchangeEvent::BalanceChanged { account_id: 5, balance_cns: 1 })
            .event(ExchangeEvent::AccountCreated { account_id: 5, address: Address::new(1, 5) })
            .event(ExchangeEvent::AccountFrozen { account_id: 5, frozen: true })
            .event(ExchangeEvent::BalanceChanged { account_id: 5, balance_cns: 2_500_000 })
            .event(ExchangeEvent::ExchangeHalted)
            .build(),
    ).unwrap();
    assert_eq!(flat(&reported).len(), 3);
    assert_eq!(exchange.accounts().len(), 1);
    let account = exchange.account(5).unwrap();
    assert_eq!(account.id(), 5);
    assert!(account.frozen());
    assert_eq!(account.balance(), dec(25, 1));
    assert_eq!(account.available_balance(), dec(25, 1));
    assert_eq!(account.instant(), StateInstant::new(30, 1_030));
    assert!(exchange.is_halted());
    assert!(exchange.account(6).is_none());
    exchange.apply_events(&Block::new(31).event(ExchangeEvent::ExchangeResumed).build()).unwrap();
    assert!(!exchange.is_halted());
    // an amount beyond the range of decimals fails the block
    let block = Block::new(32).event(ExchangeEvent::BalanceChanged { account_id: 5, balance_cns: u128::MAX }).build();
    assert_eq!(exchange.apply_events(&block).unwrap_err(), DexError::NumericOverflow);
}

#[test]
fn events_of_other_perpetuals_are_passed_over() {
    let mut exchange = fresh_exchange();
    let mut block = Block::new(30);
    block = block.event(ExchangeEvent::OrderRequest {
        account_id: M, request_id: 1, perpetual_id: 32, request_type: OPEN_SHORT, order_id: 0,
        price_pns: 1, lot_lns: 1, expiry_block: 0, leverage_hdths: 100,
        post_only: false, fill_or_kill: false, immediate_or_cancel: false,
    });
    block = block
        .placed(1, 1, 0)
        .event(ExchangeEvent::MakerOrderFilled { perpetual_id: 32, account_id: M, order_id: 3, price_pns: 1, lot_lns: 1, fee_cns: 0 })
        .taker_fill()
        .done();
    assert!(exchange.apply_events(&block.build()).unwrap().is_none());
    assert!(exchange.accounts().is_empty());
    assert!(exchange.perpetual(32).is_none());
    assert_eq!(exchange.instant().block_number(), 30);
}

#[test]
fn replaying_the_same_blocks_gives_the_same_exchange() {
    let (a, reported_a) = basic_maker_taker();
    let (b, reported_b) = basic_maker_taker();
    assert_eq!(a.instant(), b.instant());
    assert_eq!(a.perpetual(P).unwrap().open_interest(), b.perpetual(P).unwrap().open_interest());
    assert_eq!(a.perpetual(P).unwrap().l3_book().ask_orders(), b.perpetual(P).unwrap().l3_book().ask_orders());
    assert_eq!(a.account(M).unwrap().positions(), b.account(M).unwrap().positions());
    assert_eq!(a.account(T).unwrap().positions(), b.account(T).unwrap().positions());
    assert_eq!(format!("{:?}", reported_a), format!("{:?}", reported_b));
}

#[test]
fn exchange_refuses_a_second_perpetual_or_account_of_the_same_id() {
    let mut exchange = fresh_exchange();
    let copy = exchange.perpetual(P).unwrap().duplicate();
    assert_eq!(exchange.insert_perpetual(copy), Err(DexError::InvalidArgument));
    assert_eq!(exchange.perpetuals().len(), 1);
    let account = perpl_sdk::state::Account::from_event(StateInstant::new(1, 1), 3, Address::zero());
    exchange.insert_account(account.duplicate()).unwrap();
    assert_eq!(exchange.insert_account(account), Err(DexError::InvalidArgument));
    assert_eq!(exchange.accounts().len(), 1);
    assert_eq!(exchange.chain().chain_id(), 1);
    assert_eq!(exchange.collateral_converter(), Converter::new(6));
    assert_eq!(exchange.funding_interval_blocks(), 100);
    assert_eq!(exchange.min_post(), whole(1));
    assert_eq!(exchange.min_settle(), whole(1));
    assert_eq!(exchange.recycle_fee(), whole(0));
}

#[test]
fn watching_for_a_block_or_a_request() {
    let (_, reported) = basic_maker_taker();
    let first = reported[0].as_ref().unwrap();
    let second = reported[1].as_ref().unwrap();
    assert_eq!(request_ids(first), vec![1]);
    assert_eq!(request_ids(second), vec![2]);
    assert!(awaited(first, Some(30), None));
    assert!(!awaited(first, Some(31), None));
    assert!(awaited(first, None, Some(1)));
    assert!(!awaited(first, None, Some(2)));
    assert!(awaited(second, None, Some(2)));
    assert!(awaited(second, Some(30), Some(2)));
    assert!(awaited(second, Some(31), Some(9)));
    assert!(!awaited(second, Some(30), Some(9)));
    assert!(!awaited(second, None, None));
    // an order event without a request counts for the request zero
    let mut exchange = fresh_exchange();
    exchange
        .apply_events(&Block::new(30).request(M, 5, OPEN_SHORT, 0, 1_000_000, 1_000, 31).placed(1, 1_000, 0).done().build())
        .unwrap();
    let expiry = exchange.apply_events(&Block::new(31).maker_fill(M, 1, 1_000_000, 500).build()).unwrap().unwrap();
    assert!(awaited(&expiry, None, Some(0)));
    assert!(!awaited(&expiry, None, Some(5)));
    assert!(request_ids(&expiry).is_empty());
}

#[test]
fn every_order_rests_in_its_level_and_levels_add_up() {
    let mut exchange = fresh_exchange();
    let mut block = Block::new(30);
    for (i, (price, lot)) in [(1_000_000u128, 100_000u128), (1_000_000, 50_000), (999_000, 10_000), (1_002_000, 70_000)].iter().enumerate() {
        block = block.request(M, i as u64, OPEN_SHORT, 0, *price, *lot, 31).placed(i as u16 + 1, *lot, 0).done();
    }
    for (i, (price, lot)) in [(990_000u128, 100_000u128), (990_000, 50_000), (985_000, 10_000)].iter().enumerate() {
        block = block.request(T, 10 + i as u64, OPEN_LONG, 0, *price, *lot, 0).placed(i as u16 + 11, *lot, 0).done();
    }
    exchange.apply_events(&block.build()).unwrap();
    exchange
        .apply_events(
            &Block::new(31)
                .request(T, 20, OPEN_LONG, 0, 999_000, 5_000, 0)
                .maker_fill(M, 3, 999_000, 5_000)
                .taker_fill()
                .done()
                .request(M, 21, CANCEL, 2, 0, 0, 0)
                .event(ExchangeEvent::OrderCancelled { order_id: 2, locked_balance_cns: 0 })
                .done()
                .build(),
        )
        .unwrap();
    let perp = exchange.perpetual(P).unwrap();
    let book = perp.l3_book();
    let orders = perp.orders();
    assert_eq!(orders.len(), 6);
    for order in &orders {
        let queue = book.level_orders(order.side(), order.price());
        assert_eq!(queue.iter().filter(|o| o.order_id() == order.order_id()).count(), 1);
        assert_eq!(perp.get_order(order.order_id()), Some(*order));
    }
    for (side, levels) in [(OrderSide::Ask, book.asks()), (OrderSide::Bid, book.bids())] {
        for level in levels {
            let queue = book.level_orders(side, level.price());
            assert_eq!(queue.len() as u32, level.num_orders());
            let sum: u128 = queue.iter().map(|o| o.size().units()).sum();
            assert_eq!(sum, level.size().units());
            assert_eq!(queue.first().map(|o| o.order_id()), level.head());
            assert_eq!(queue.last().map(|o| o.order_id()), level.tail());
        }
    }
    // the asks have expired with block 31; the best bid stands below every ask
    let (bid, _) = book.best_bid().unwrap();
    assert_eq!(book.best_ask(), None);
    for level in book.asks() {
        assert!(level.price() > bid);
    }
    let view = book.view_of(None, None, true);
    assert_eq!(view.asks.len(), 3);
    assert_eq!(view.ask_totals.num_orders, 3);
}

#[test]
fn best_ask_is_above_best_bid() {
    let mut exchange = fresh_exchange();
    exchange
        .apply_events(
            &Block::new(30)
                .request(M, 1, OPEN_SHORT, 0, 1_000_000, 100_000, 0).placed(1, 100_000, 0).done()
                .request(M, 2, OPEN_SHORT, 0, 1_001_000, 100_000, 0).placed(2, 100_000, 0).done()
                .request(T, 3, OPEN_LONG, 0, 999_000, 100_000, 0).placed(3, 100_000, 0).done()
                .request(T, 4, OPEN_LONG, 0, 998_000, 100_000, 0).placed(4, 100_000, 0).done()
                .build(),
        )
        .unwrap();
    let book = exchange.perpetual(P).unwrap().l3_book();
    let (ask, _) = book.best_ask().unwrap();
    let (bid, _) = book.best_bid().unwrap();
    assert_eq!((ask, bid), (whole(100_000), whole(99_900)));
    assert!(ask > bid);
}
