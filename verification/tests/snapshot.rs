use perpl_sdk::error::DexError;
use perpl_sdk::num::{Converter, Decimal, SignedDecimal};
use perpl_sdk::state::{
    perpetuals_with_position, Account, AccountInfo, Bank, Order, OrderParseError, Perpetual,
    PerpetualInfo, Position, PositionBitMap, PositionInfo, PositionType, SnapshotOrder,
};
use perpl_sdk::types::{
    Address, OrderContext, OrderRequest, OrderSide, OrderType, RequestType, StateInstant,
};
use perpl_sdk::Chain;

fn dec(raw: u128, decimals: u8) -> Decimal {
    Converter::new(decimals).from_unsigned(raw).unwrap()
}

fn whole(n: u64) -> Decimal {
    Decimal::from_integer(n)
}

const EMPTY: Bank = Bank { high: 0, low: 0 };

#[test]
fn bitmap_names_the_perpetuals_with_positions() {
    let none = PositionBitMap { bank1: EMPTY, bank2: EMPTY, bank3: EMPTY, bank4: EMPTY };
    assert!(perpetuals_with_position(&none).is_empty());

    let bitmap = PositionBitMap {
        bank1: Bank { high: 1 << (252 - 128), low: (1 << 16) | 1 },
        bank2: Bank { high: 1 << 127, low: 1 },
        bank3: Bank { high: 0, low: 1 << 3 },
        bank4: Bank { high: 1 << 127, low: 0 },
    };
    assert_eq!(perpetuals_with_position(&bitmap), vec![0, 16, 252, 253, 508, 512, 1020]);
}

#[test]
fn bitmap_answers_for_single_perpetuals() {
    let bitmap = PositionBitMap {
        bank1: Bank { high: 0, low: 1 << 16 },
        bank2: Bank { high: 0, low: 1 },
        bank3: EMPTY,
        bank4: Bank { high: 1 << 127, low: 0 },
    };
    for id in 0..1100u32 {
        assert_eq!(bitmap.has_position(id), [16, 253, 1020].contains(&id), "perpetual {}", id);
        assert_eq!(perpetuals_with_position(&bitmap).contains(&id), bitmap.has_position(id));
    }
    assert!(bitmap.has_position_in(&vec![1, 2, 253]));
    assert!(!bitmap.has_position_in(&vec![1, 2, 254, 1021]));
    assert!(!bitmap.has_position_in(&vec![]));
}

#[test]
fn first_bank_has_253_bits_only() {
    let bitmap = PositionBitMap {
        bank1: Bank { high: u128::MAX, low: u128::MAX },
        bank2: EMPTY,
        bank3: EMPTY,
        bank4: EMPTY,
    };
    let ids = perpetuals_with_position(&bitmap);
    assert_eq!(ids.len(), 253);
    assert_eq!(ids, (0..253).collect::<Vec<u32>>());
    let all = Bank { high: u128::MAX, low: u128::MAX };
    let bitmap = PositionBitMap { bank1: all, bank2: all, bank3: all, bank4: all };
    assert_eq!(perpetuals_with_position(&bitmap), (0..1021).collect::<Vec<u32>>());
    assert!(all.bit(255));
    assert!(!all.bit(256));
    assert!(!EMPTY.bit(0));
}

fn snapshot_order(order_id: u16) -> SnapshotOrder {
    SnapshotOrder {
        order_id,
        prev_order_id: 0,
        next_order_id: 9,
        order_type: 1,
        account_id: 4,
        price_ons: 1_000,
        lot_lns: 90_000,
        expiry_block: 50,
        leverage_hdths: 1_000,
    }
}

#[test]
fn order_from_snapshot_converts_at_the_scales() {
    let order = Order::from_snapshot(
        StateInstant::new(30, 3),
        snapshot_order(1),
        whole(99_900),
        Converter::new(1),
        Converter::new(5),
        Converter::new(2),
    )
    .unwrap();
    assert_eq!(order.order_id(), 1);
    assert_eq!(order.order_type(), OrderType::OpenShort);
    assert_eq!(order.side(), OrderSide::Ask);
    assert_eq!(order.account_id(), 4);
    assert_eq!(order.price(), whole(100_000));
    assert_eq!(order.size(), dec(9, 1));
    assert_eq!(order.leverage(), whole(10));
    assert_eq!(order.expiry_block(), 50);
    assert_eq!(order.instant(), StateInstant::new(30, 3));
    assert_eq!(order.prev_order_id(), None);
    assert_eq!(order.next_order_id(), Some(9));
    assert_eq!(order.placed_size(), None);
    assert_eq!(order.filled_size(), None);
    assert_eq!(order.request_id(), None);
    assert_eq!(order.client_order_id(), None);
    assert_eq!(order.post_only(), None);
    assert_eq!(order.fill_or_kill(), None);
    assert_eq!(order.immediate_or_cancel(), None);
    assert!(!order.is_expired());
}

#[test]
fn order_from_snapshot_rejects_id_zero() {
    let c = Converter::new(1);
    assert_eq!(
        Order::from_snapshot(StateInstant::new(30, 3), snapshot_order(0), whole(1), c, c, c),
        Err(OrderParseError::ZeroOrderId)
    );
    let mut odd = snapshot_order(1);
    odd.order_type = 4;
    assert_eq!(
        Order::from_snapshot(StateInstant::new(30, 3), odd, whole(1), c, c, c),
        Err(OrderParseError::UnknownOrderType)
    );
    let mut huge = snapshot_order(1);
    huge.lot_lns = u128::MAX;
    assert_eq!(
        Order::from_snapshot(StateInstant::new(30, 3), huge, whole(1), c, c, c),
        Err(OrderParseError::NumericOverflow)
    );
    assert_eq!(
        Order::from_snapshot(StateInstant::new(30, 3), snapshot_order(1), Decimal::from_units(u128::MAX), c, c, c),
        Err(OrderParseError::NumericOverflow)
    );
}

fn context(request_type: RequestType) -> OrderContext {
    OrderContext {
        account_id: 3,
        request_id: 77,
        perpetual_id: 16,
        request_type,
        order_id: 0,
        price_pns: 1_000_000,
        lot_lns: 100_000,
        expiry_block: 60,
        leverage_hdths: 250,
        post_only: true,
        fill_or_kill: false,
        immediate_or_cancel: true,
    }
}

#[test]
fn placed_order_takes_the_request() {
    let ctx = context(RequestType::CloseShort);
    let order = Order::placed(StateInstant::new(5, 5), &ctx, 8, whole(1), Converter::new(1), Converter::new(2)).unwrap();
    assert_eq!(order.order_id(), 8);
    assert_eq!(order.order_type(), OrderType::CloseShort);
    assert_eq!(order.side(), OrderSide::Bid);
    assert_eq!(order.price(), whole(100_000));
    assert_eq!(order.size(), whole(1));
    assert_eq!(order.placed_size(), Some(whole(1)));
    assert_eq!(order.filled_size(), Some(Decimal::zero()));
    assert_eq!(order.leverage(), dec(25, 1));
    assert_eq!(order.request_id(), Some(77));
    assert_eq!(order.client_order_id(), Some(77));
    assert_eq!(order.post_only(), Some(true));
    assert_eq!(order.fill_or_kill(), Some(false));
    assert_eq!(order.immediate_or_cancel(), Some(true));
    assert_eq!(order.expiry_block(), 60);
    assert_eq!(ctx.side(), Some(OrderSide::Bid));
    assert_eq!(ctx.order_type(), Some(OrderType::CloseShort));

    assert_eq!(
        Order::placed(StateInstant::new(5, 5), &ctx, 0, whole(1), Converter::new(1), Converter::new(2)),
        Err(DexError::InvalidOrderId)
    );
    assert_eq!(
        Order::placed(StateInstant::new(5, 5), &context(RequestType::Change), 8, whole(1), Converter::new(1), Converter::new(2)),
        Err(DexError::InvalidEvent)
    );
    assert_eq!(
        Order::placed(StateInstant::new(5, 5), &ctx, 8, whole(1), Converter::new(0), Converter::new(2)),
        Ok(order.with_price(whole(1_000_000)))
    );
}

#[test]
fn updated_order_keeps_what_is_not_given() {
    let order = Order::for_testing(OrderType::OpenLong, whole(100), whole(5)).with_client_order_id(1).with_links(Some(2), Some(3));
    let ctx = Some(context(RequestType::Change));
    let updated = order.updated(StateInstant::new(9, 9), &ctx, None, Some(whole(4)), None, Some(20));
    assert_eq!(updated.instant(), StateInstant::new(9, 9));
    assert_eq!(updated.request_id(), Some(77));
    assert_eq!(updated.client_order_id(), Some(1));
    assert_eq!(updated.price(), whole(100));
    assert_eq!(updated.size(), whole(4));
    assert_eq!(updated.placed_size(), Some(whole(5)));
    assert_eq!(updated.filled_size(), Some(whole(1)));
    assert_eq!(updated.expiry_block(), 20);
    assert_eq!(updated.prev_order_id(), Some(2));
    assert_eq!(updated.next_order_id(), Some(3));
    let plain = order.updated(StateInstant::new(9, 9), &None, Some(whole(99)), None, Some(whole(7)), None);
    assert_eq!(plain.request_id(), None);
    assert_eq!(plain.price(), whole(99));
    assert_eq!(plain.placed_size(), Some(whole(7)));
    assert_eq!(plain.expiry_block(), 0);
}

#[test]
fn expiry_is_reached_with_the_expiry_block() {
    let mut order = Order::for_l3_testing(OrderType::OpenLong, whole(1), whole(1), 30, 1, 0).with_expiry_block(50);
    assert!(!order.is_expired());
    assert!(!order.update_if_expired(StateInstant::new(49, 0)));
    assert_eq!(order.instant().block_number(), 30);
    assert!(order.update_if_expired(StateInstant::new(50, 0)));
    assert!(order.is_expired());
    assert_eq!(order.instant().block_number(), 50);
    assert!(!order.update_if_expired(StateInstant::new(51, 0)));
    assert_eq!(order.instant().block_number(), 50);

    let mut forever = Order::for_l3_testing_with_links(OrderType::OpenLong, whole(1), whole(1), 30, 1, 0, None, Some(2));
    assert!(!forever.update_if_expired(StateInstant::new(u64::MAX, 0)));
    assert!(!forever.is_expired());
    assert_eq!(forever.next_order_id(), Some(2));
}

fn perpetual_info() -> PerpetualInfo {
    PerpetualInfo {
        name: "BTC".to_string(),
        symbol: "BTC".to_string(),
        paused: false,
        price_decimals: 1,
        lot_decimals: 5,
        base_price_pns: 500_000,
        mark_pns: 1_000_000,
        mark_timestamp: 11,
        index_pns: 1_000_010,
        index_timestamp: 12,
        oracle_pns: 1_000_020,
        oracle_timestamp_sec: 13,
        funding_start_block: 8571,
        ref_price_max_age_sec: 60,
        long_open_interest_lns: 10_000,
    }
}

#[test]
fn perpetual_from_the_exchange_s_numbers() {
    let perp = Perpetual::new(StateInstant::new(3, 70), 16, &perpetual_info(), 10, 35, 1_000, 2_000).unwrap();
    assert_eq!(perp.id(), 16);
    assert_eq!(perp.name(), "BTC".to_string());
    assert_eq!(perp.symbol(), "BTC".to_string());
    assert!(!perp.is_paused());
    assert_eq!(perp.maker_fee(), dec(10, 5));
    assert_eq!(perp.taker_fee(), dec(35, 5));
    assert_eq!(perp.initial_margin(), whole(10));
    assert_eq!(perp.maintenance_margin(), whole(20));
    assert_eq!(perp.base_price(), whole(50_000));
    assert_eq!(perp.last_price(), whole(100_000));
    assert_eq!(perp.last_price_timestamp(), 11);
    assert_eq!(perp.last_price_block(), None);
    assert_eq!(perp.mark_price(), whole(100_001));
    assert_eq!(perp.mark_price_timestamp(), 12);
    assert_eq!(perp.oracle_price(), whole(100_002));
    assert_eq!(perp.oracle_price_timestamp(), 13);
    assert_eq!(perp.funding_start_block(), 8571);
    assert_eq!(perp.open_interest(), dec(1, 1));
    assert_eq!(perp.price_converter(), Converter::new(1));
    assert_eq!(perp.size_converter(), Converter::new(5));
    assert_eq!(perp.leverage_converter(), Converter::new(2));
    assert_eq!(perp.fee_converter(), Converter::new(5));
    assert_eq!(perp.instant(), StateInstant::new(3, 70));
    // 12 + 60 > 70, 13 + 60 > 70
    assert!(!perp.is_mark_price_obsolete());
    assert!(!perp.is_oracle_price_obsolete());
    assert!(perp.l3_book().ask_orders().is_empty());
    let late = Perpetual::new(StateInstant::new(3, 72), 16, &perpetual_info(), 10, 35, 1_000, 2_000).unwrap();
    assert!(late.is_mark_price_obsolete());
    assert!(!late.is_oracle_price_obsolete());

    let mut huge = perpetual_info();
    huge.oracle_pns = u128::MAX;
    assert!(matches!(
        Perpetual::new(StateInstant::new(3, 70), 16, &huge, 10, 35, 1_000, 2_000),
        Err(DexError::NumericOverflow)
    ));
}

#[test]
fn perpetual_orders_and_open_interest() {
    let mut perp = Perpetual::new(StateInstant::new(3, 70), 16, &perpetual_info(), 10, 35, 1_000, 2_000).unwrap();
    let order = Order::for_l3_testing(OrderType::OpenShort, whole(100), whole(1), 3, 2, 0);
    perp.add_order(order).unwrap();
    assert_eq!(perp.add_order(order), Err(DexError::DuplicateOrderId(16, 2)));
    assert_eq!(perp.add_order(order.with_links(None, None)), Err(DexError::DuplicateOrderId(16, 2)));
    assert_eq!(perp.update_order(Order::for_l3_testing(OrderType::OpenShort, whole(100), whole(1), 3, 3, 0)), Err(DexError::OrderNotFound(16, 3)));
    assert_eq!(perp.remove_order(3), Err(DexError::OrderNotFound(16, 3)));
    assert_eq!(perp.add_order(Order::for_l3_testing(OrderType::OpenShort, whole(100), whole(1), 3, 0, 0)), Err(DexError::InvalidOrderId));
    perp.update_order(order.with_size(whole(2))).unwrap();
    assert_eq!(perp.get_order(2).unwrap().size(), whole(2));
    assert_eq!(perp.remove_order(2).unwrap().size(), whole(2));

    perp.update_open_interest(StateInstant::new(4, 71), Decimal::zero(), whole(3)).unwrap();
    assert_eq!(perp.open_interest(), dec(31, 1));
    perp.update_open_interest(StateInstant::new(4, 71), whole(1), Decimal::zero()).unwrap();
    assert_eq!(perp.open_interest(), dec(21, 1));
    // no more is taken off than there is
    perp.update_open_interest(StateInstant::new(4, 71), whole(5), dec(1, 1)).unwrap();
    assert_eq!(perp.open_interest(), dec(1, 1));
    assert_eq!(
        perp.update_open_interest(StateInstant::new(5, 72), Decimal::zero(), Decimal::from_units(u128::MAX)),
        Err(DexError::NumericOverflow)
    );
    assert_eq!(perp.open_interest(), dec(1, 1));
    assert_eq!(perp.instant(), StateInstant::new(4, 71));
}

#[test]
fn perpetual_parameters_are_set_one_by_one() {
    let mut perp = Perpetual::new(StateInstant::new(3, 70), 16, &perpetual_info(), 10, 35, 1_000, 2_000).unwrap();
    perp.update_paused(StateInstant::new(4, 71), true);
    assert!(perp.is_paused());
    perp.update_maker_fee(StateInstant::new(4, 71), dec(2, 4));
    perp.update_taker_fee(StateInstant::new(4, 71), dec(3, 4));
    perp.update_initial_margin(StateInstant::new(4, 71), whole(5));
    perp.update_maintenance_margin(StateInstant::new(4, 71), whole(3));
    perp.update_price_max_age(StateInstant::new(5, 72), 9);
    assert_eq!(perp.maker_fee(), dec(2, 4));
    assert_eq!(perp.taker_fee(), dec(3, 4));
    assert_eq!(perp.initial_margin(), whole(5));
    assert_eq!(perp.maintenance_margin(), whole(3));
    assert_eq!(perp.price_max_age(), 9);
    assert_eq!(perp.instant(), StateInstant::new(5, 72));
    perp.update_last_price(StateInstant::new(6, 80), whole(101));
    perp.update_mark_price(StateInstant::new(7, 81), whole(102));
    perp.update_oracle_price(StateInstant::new(8, 82), whole(103));
    assert_eq!((perp.last_price(), perp.last_price_block(), perp.last_price_timestamp()), (whole(101), Some(6), 80));
    assert_eq!((perp.mark_price(), perp.mark_price_block(), perp.mark_price_timestamp()), (whole(102), Some(7), 81));
    assert_eq!((perp.oracle_price(), perp.oracle_price_block(), perp.oracle_price_timestamp()), (whole(103), Some(8), 82));
    assert_eq!(perp.instant(), StateInstant::new(8, 82));
    // nine seconds after the mark price the mark price is obsolete, the oracle price not yet
    perp.update_paused(StateInstant::new(9, 90), false);
    assert!(perp.is_mark_price_obsolete());
    assert!(!perp.is_oracle_price_obsolete());
    assert!(StateInstant::new(8, 82).is_before(&perp.instant()));
    assert!(!perp.instant().is_before(&StateInstant::new(9, 0)));
}

fn position_info() -> PositionInfo {
    PositionInfo {
        account_id: 4,
        position_type: 1,
        price_pns: 1_000_000,
        lot_lns: 10_000,
        deposit_cns: 1_000_000_000,
        delta_pnl_cns: -1_500_000,
        premium_pnl_cns: 500_000,
    }
}

#[test]
fn position_from_the_exchange_s_numbers() {
    let position = Position::new(StateInstant::new(3, 70), 16, &position_info(), Converter::new(6), Converter::new(1), Converter::new(5)).unwrap();
    assert_eq!(position.perpetual_id(), 16);
    assert_eq!(position.account_id(), 4);
    assert_eq!(position.position_type(), PositionType::Short);
    assert_eq!(position.entry_price(), whole(100_000));
    assert_eq!(position.size(), dec(1, 1));
    assert_eq!(position.deposit(), whole(1_000));
    assert_eq!(position.delta_pnl(), SignedDecimal::from_parts(true, dec(15, 1).units()));
    assert_eq!(position.premium_pnl(), SignedDecimal::from_parts(false, dec(5, 1).units()));
    assert_eq!(position.pnl(), SignedDecimal::from_parts(true, whole(1).units()));
    assert_eq!(position.instant(), StateInstant::new(3, 70));

    let mut odd = position_info();
    odd.position_type = 2;
    let c = Converter::new(6);
    assert_eq!(Position::new(StateInstant::new(3, 70), 16, &odd, c, c, c), Err(DexError::InvalidEvent));
    let mut empty = position_info();
    empty.lot_lns = 0;
    assert_eq!(Position::new(StateInstant::new(3, 70), 16, &empty, c, c, c), Err(DexError::InvalidEvent));
    let mut huge = position_info();
    huge.deposit_cns = u128::MAX;
    assert_eq!(Position::new(StateInstant::new(3, 70), 16, &huge, c, c, c), Err(DexError::NumericOverflow));
}

#[test]
fn position_fills() {
    let at = StateInstant::new(1, 1);
    let opened = Position::filled(None, at, 16, 4, OrderSide::Bid, whole(100), whole(2)).unwrap().unwrap();
    assert_eq!(opened, Position::opened(at, 16, 4, PositionType::Long, whole(100), whole(2)));
    // no size, no change
    assert_eq!(Position::filled(None, at, 16, 4, OrderSide::Bid, whole(100), Decimal::zero()), Ok(None));
    assert_eq!(Position::filled(Some(opened), at, 16, 4, OrderSide::Ask, whole(1), Decimal::zero()), Ok(Some(opened)));
    // with the position: sizes add up, prices average by size
    let more = Position::filled(Some(opened), at, 16, 4, OrderSide::Bid, whole(130), whole(1)).unwrap().unwrap();
    assert_eq!(more.size(), whole(3));
    assert_eq!(more.entry_price(), whole(110));
    assert_eq!(Position::average_entry(whole(100), whole(2), whole(130), whole(1)), Some(whole(110)));
    // against it: the entry price stays
    let less = Position::filled(Some(more), at, 16, 4, OrderSide::Ask, whole(500), whole(1)).unwrap().unwrap();
    assert_eq!(less.size(), whole(2));
    assert_eq!(less.entry_price(), whole(110));
    assert_eq!(less.position_type(), PositionType::Long);
    assert_eq!(Position::filled(Some(less), at, 16, 4, OrderSide::Ask, whole(500), whole(2)), Ok(None));
    let turned = Position::filled(Some(less), at, 16, 4, OrderSide::Ask, whole(500), whole(5)).unwrap().unwrap();
    assert_eq!(turned.position_type(), PositionType::Short);
    assert_eq!(turned.size(), whole(3));
    assert_eq!(turned.entry_price(), whole(500));
    assert_eq!(Position::long_size(Some(turned)), Decimal::zero());
    assert_eq!(Position::long_size(Some(less)), whole(2));
    assert_eq!(Position::long_size(None), Decimal::zero());
    let full = Position::opened(at, 16, 4, PositionType::Long, whole(1), Decimal::from_units(u128::MAX));
    assert_eq!(Position::filled(Some(full), at, 16, 4, OrderSide::Bid, whole(1), whole(1)), Err(DexError::NumericOverflow));
}

#[test]
fn account_balances_and_positions() {
    let info = AccountInfo { address: Address::new(1, 2), balance_cns: 5_000_000, locked_balance_cns: 7_000_000, frozen: true };
    let position = Position::new(StateInstant::new(3, 70), 16, &position_info(), Converter::new(6), Converter::new(1), Converter::new(5)).unwrap();
    let mut account = Account::new(StateInstant::new(3, 70), 4, &info, vec![position], Converter::new(6)).unwrap();
    assert_eq!(account.id(), 4);
    assert_eq!(account.address(), Address::new(1, 2));
    assert_eq!(account.balance(), whole(5));
    assert_eq!(account.locked_balance(), whole(7));
    // more is locked than there is: nothing is available
    assert_eq!(account.available_balance(), Decimal::zero());
    assert!(account.frozen());
    assert_eq!(account.positions().len(), 1);
    assert_eq!(account.position(16), Some(position));
    assert_eq!(account.position(32), None);
    assert_eq!(account.unrealized_pnl(), Some(SignedDecimal::from_parts(true, whole(1).units())));

    account.update_locked_balance(StateInstant::new(4, 71), whole(2));
    assert_eq!(account.available_balance(), whole(3));
    account.update_balance(StateInstant::new(4, 71), whole(2));
    assert_eq!(account.available_balance(), Decimal::zero());
    account.update_frozen(StateInstant::new(5, 72), false);
    assert!(!account.frozen());
    assert_eq!(account.instant(), StateInstant::new(5, 72));

    let other = Position::opened(StateInstant::new(6, 73), 32, 4, PositionType::Long, whole(1), whole(1));
    account.set_position(StateInstant::new(6, 73), 32, Some(other));
    assert_eq!(account.positions().len(), 2);
    account.set_position(StateInstant::new(6, 73), 16, None);
    assert_eq!(account.positions(), &vec![other]);
    account.set_position(StateInstant::new(6, 73), 16, None);
    assert_eq!(account.positions().len(), 1);
    assert_eq!(account.unrealized_pnl(), Some(SignedDecimal::zero()));

    let placeholder = Account::from_position(StateInstant::new(6, 73), other);
    assert_eq!(placeholder.id(), 4);
    assert!(placeholder.address().is_zero());
    assert_eq!(placeholder.position(32), Some(other));
    let huge = AccountInfo { address: Address::zero(), balance_cns: u128::MAX, locked_balance_cns: 0, frozen: false };
    assert!(matches!(Account::new(StateInstant::new(3, 70), 4, &huge, vec![], Converter::new(6)), Err(DexError::NumericOverflow)));
}

#[test]
fn order_request_becomes_the_exchange_s_descriptor() {
    let request = OrderRequest::new(5, 16, RequestType::OpenShort, None, whole(100_000), dec(15, 1), Some(50), true, false, false, whole(10));
    let desc = request.to_order_desc(Converter::new(1), Converter::new(5), Converter::new(2)).unwrap();
    assert_eq!(desc.request_id, 5);
    assert_eq!(desc.perpetual_id, 16);
    assert_eq!(desc.request_type, 1);
    assert_eq!(desc.order_id, 0);
    assert_eq!(desc.price_pns, 1_000_000);
    assert_eq!(desc.lot_lns, 150_000);
    assert_eq!(desc.expiry_block, 50);
    assert_eq!(desc.leverage_hdths, 1_000);
    assert!(desc.post_only && !desc.fill_or_kill && !desc.immediate_or_cancel);
    let cancel = OrderRequest::new(6, 16, RequestType::Cancel, Some(7), Decimal::zero(), Decimal::zero(), None, false, false, false, whole(10));
    let desc = cancel.to_order_desc(Converter::new(1), Converter::new(5), Converter::new(2)).unwrap();
    assert_eq!((desc.request_type, desc.order_id, desc.expiry_block), (4, 7, 0));
    // what does not fit is reported
    let huge = OrderRequest::new(6, 16, RequestType::OpenLong, None, Decimal::from_units(u128::MAX), whole(1), None, false, false, false, whole(1));
    assert_eq!(huge.to_order_desc(Converter::new(30), Converter::new(5), Converter::new(2)), Err(DexError::NumericOverflow));
    for value in 0..8u8 {
        match RequestType::from_u8(value) {
            Some(t) => assert_eq!(t.to_u8(), value),
            None => assert!(value > 5),
        }
        match OrderType::from_u8(value) {
            Some(t) => assert_eq!(t.to_u8(), value),
            None => assert!(value > 3),
        }
    }
    assert_eq!(RequestType::Change.try_side(), None);
    assert_eq!(RequestType::CloseLong.try_side(), Some(OrderSide::Ask));
    assert_eq!(PositionType::from_u8(2), None);
    assert_eq!(PositionType::of_side(OrderSide::Ask), PositionType::Short);
}

#[test]
fn testnet_chain() {
    let chain = Chain::testnet();
    assert_eq!(chain.chain_id(), 10143);
    assert_eq!(chain.deployed_at_block(), 62953);
    assert_eq!(chain.perpetuals(), &vec![16, 32, 48, 64, 256]);
    assert_eq!(chain.exchange(), Address::new(0x1964C32f, 0x0bE608E7D29302AFF5E61268E72080cc));
    assert_eq!(chain.collateral_token(), Address::new(0xa9012a05, 0x5bd4e0eDfF8Ce09f960291C09D5322dC));
    let custom = Chain::custom(1, Address::zero(), 2, Address::new(3, 4), vec![5]);
    assert_eq!(custom.chain_id(), 1);
    assert_eq!(custom.deployed_at_block(), 2);
    assert_eq!(custom.exchange(), Address::new(3, 4));
    assert_eq!(custom.duplicate().perpetuals(), &vec![5]);
}
