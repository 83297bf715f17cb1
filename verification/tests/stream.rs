use perpl_sdk::error::DexError;
use perpl_sdk::num::{Converter, Decimal};
use perpl_sdk::stream::raw::raw_event;
use perpl_sdk::stream::{
    Fetched, NormalizationConfig, PerpetualConverters, RawStream, StreamAction, TradeProcessor,
};
use perpl_sdk::types::{
    BlockEvents, EventContext, ExchangeEvent, MakerFill, OrderSide, RawBlockEvents, RawEvent,
    StateInstant, Trade, TxHash,
};

fn dec(raw: u128, decimals: u8) -> Decimal {
    Converter::new(decimals).from_unsigned(raw).unwrap()
}

fn whole(n: u64) -> Decimal {
    Decimal::from_integer(n)
}

fn block_of(action: StreamAction) -> RawBlockEvents {
    match action {
        StreamAction::Yield(Ok(block)) => block,
        StreamAction::Yield(Err(e)) => panic!("unexpected error {:?}", e),
        StreamAction::Retry => panic!("unexpected retry"),
    }
}

#[test]
fn stream_waits_for_a_missing_block() {
    let n = 100;
    let mut stream = RawStream::new(StateInstant::new(n, 0));
    assert_eq!(stream.next_block(), n);
    // the node does not have the block on the first two calls
    assert!(matches!(stream.on_fetched(Fetched::NotAvailable), StreamAction::Retry));
    assert_eq!(stream.next_block(), n);
    assert!(matches!(stream.on_fetched(Fetched::Failed(DexError::InvalidRequest)), StreamAction::Retry));
    assert_eq!(stream.next_block(), n);
    // then it has: exactly one item comes, and the stream moves on
    let block = block_of(stream.on_fetched(Fetched::Block { timestamp: 7, events: Vec::new() }));
    assert_eq!(block.instant(), StateInstant::new(n, 7));
    assert_eq!(stream.next_block(), n + 1);
    let block = block_of(stream.on_fetched(Fetched::Block { timestamp: 8, events: Vec::new() }));
    assert_eq!(block.instant().block_number(), n + 1);
    assert_eq!(stream.next_block(), n + 2);
}

#[test]
fn stream_hands_on_blocks_without_events() {
    let mut stream = RawStream::new(StateInstant::new(5, 0));
    let block = block_of(stream.on_fetched(Fetched::Block { timestamp: 1, events: Vec::new() }));
    assert!(block.events().is_empty());
    assert_eq!(block.instant(), StateInstant::new(5, 1));
}

#[test]
fn stream_hands_on_errors_and_stays() {
    let mut stream = RawStream::new(StateInstant::new(5, 0));
    for error in [DexError::Transport, DexError::Decode] {
        match stream.on_fetched(Fetched::Failed(error)) {
            StreamAction::Yield(Err(e)) => assert_eq!(e, error),
            _ => panic!("the error was not handed on"),
        }
        assert_eq!(stream.next_block(), 5);
    }
    let events = vec![raw_event(None, None, None, ExchangeEvent::ExchangeHalted)];
    let block = block_of(stream.on_fetched(Fetched::Block { timestamp: 1, events }));
    assert_eq!(block.events().len(), 1);
    assert_eq!(block.events()[0].tx_hash(), TxHash::zero());
    assert_eq!(block.events()[0].tx_index(), 0);
    assert_eq!(block.events()[0].log_index(), 0);
    assert_eq!(stream.next_block(), 6);
}

#[test]
fn raw_event_takes_the_place_from_the_log() {
    let event = raw_event(Some(TxHash::new(1, 2)), Some(3), Some(4), ExchangeEvent::Other);
    assert_eq!(event.tx_hash(), TxHash::new(1, 2));
    assert_eq!(event.tx_index(), 3);
    assert_eq!(event.log_index(), 4);
    assert_eq!(*event.event(), ExchangeEvent::Other);
    let passed = event.pass(7u8);
    assert_eq!((passed.tx_index(), passed.log_index(), *passed.event()), (3, 4, 7));
}

fn config() -> NormalizationConfig {
    NormalizationConfig::new(
        Converter::new(6),
        vec![
            PerpetualConverters { perpetual_id: 16, price_converter: Converter::new(1), size_converter: Converter::new(5) },
            PerpetualConverters { perpetual_id: 32, price_converter: Converter::new(2), size_converter: Converter::new(3) },
        ],
    )
    .unwrap()
}

fn request(account: u32, request_type: u8) -> ExchangeEvent {
    ExchangeEvent::OrderRequest {
        account_id: account,
        request_id: 1,
        perpetual_id: 16,
        request_type,
        order_id: 0,
        price_pns: 0,
        lot_lns: 0,
        expiry_block: 0,
        leverage_hdths: 0,
        post_only: false,
        fill_or_kill: false,
        immediate_or_cancel: false,
    }
}

fn maker(perp: u32, account: u32, order: u16, price: u128, lot: u128) -> ExchangeEvent {
    ExchangeEvent::MakerOrderFilled { perpetual_id: perp, account_id: account, order_id: order, price_pns: price, lot_lns: lot, fee_cns: 1_000 }
}

fn block(events: Vec<(u64, ExchangeEvent)>) -> RawBlockEvents {
    let events: Vec<RawEvent> = events
        .into_iter()
        .enumerate()
        .map(|(i, (tx, e))| EventContext::new(TxHash::new(0, tx as u128), tx, i as u64, e))
        .collect();
    BlockEvents::new(StateInstant::new(9, 9), events)
}

#[test]
fn config_refuses_a_perpetual_twice() {
    let c = PerpetualConverters { perpetual_id: 16, price_converter: Converter::new(1), size_converter: Converter::new(5) };
    assert!(matches!(NormalizationConfig::new(Converter::new(6), vec![c, c]), Err(DexError::InvalidArgument)));
    let config = config();
    assert_eq!(config.find(32).unwrap().price_converter, Converter::new(2));
    assert_eq!(config.find(16).unwrap().size_converter, Converter::new(5));
    assert!(config.find(48).is_none());
}

#[test]
fn taker_fill_closes_one_trade_with_all_maker_fills() {
    let mut processor = TradeProcessor::new(config());
    let trades = processor
        .process_block(&block(vec![
            (0, request(7, 0)),
            (0, maker(16, 1, 11, 1_000_000, 100_000)),
            (0, maker(16, 2, 12, 1_002_000, 300_000)),
            (0, ExchangeEvent::TakerOrderFilled { fee_cns: 3_500 }),
            (0, ExchangeEvent::OrderBatchCompleted),
        ]))
        .unwrap();
    assert_eq!(trades.instant(), StateInstant::new(9, 9));
    assert_eq!(trades.events().len(), 1);
    let event = &trades.events()[0];
    assert_eq!((event.tx_index(), event.log_index()), (0, 3));
    let trade = event.event();
    assert_eq!(trade.perpetual_id, 16);
    assert_eq!(trade.taker_account_id, 7);
    assert_eq!(trade.taker_side, OrderSide::Bid);
    assert_eq!(trade.taker_fee, dec(35, 4));
    assert_eq!(trade.maker_fills.len(), 2);
    assert_eq!(trade.maker_fills[0], MakerFill {
        log_index: 1,
        maker_account_id: 1,
        maker_order_id: 11,
        price: whole(100_000),
        size: whole(1),
        fee: dec(1, 3),
    });
    assert_eq!(trade.maker_fills[1].log_index, 2);
    assert_eq!(trade.total_size(), Some(whole(4)));
    // (100000 * 1 + 100200 * 3) / 4
    assert_eq!(trade.avg_price(), Some(whole(100_150)));
    assert_eq!(trade.total_maker_fees(), Some(dec(2, 3)));
}

#[test]
fn blocks_without_trades_give_empty_batches() {
    let mut processor = TradeProcessor::new(config());
    let trades = processor.process_block(&block(vec![])).unwrap();
    assert!(trades.events().is_empty());
    assert_eq!(trades.instant(), StateInstant::new(9, 9));
    let trades = processor
        .process_block(&block(vec![(0, request(7, 1)), (0, ExchangeEvent::Other), (0, ExchangeEvent::OrderBatchCompleted)]))
        .unwrap();
    assert!(trades.events().is_empty());
}

#[test]
fn trades_need_maker_fills_a_request_and_one_transaction() {
    let taker = ExchangeEvent::TakerOrderFilled { fee_cns: 1 };
    let mut processor = TradeProcessor::new(config());
    // no maker fill
    assert!(processor.process_block(&block(vec![(0, request(7, 0)), (0, taker)])).unwrap().events().is_empty());
    // no request
    assert!(processor.process_block(&block(vec![(0, maker(16, 1, 11, 1, 1)), (0, taker)])).unwrap().events().is_empty());
    // a cancel request trades on no side
    assert!(processor.process_block(&block(vec![(0, request(7, 4)), (0, maker(16, 1, 11, 1, 1)), (0, taker)])).unwrap().events().is_empty());
    // the batch ended before the taker fill
    assert!(processor
        .process_block(&block(vec![(0, request(7, 0)), (0, maker(16, 1, 11, 1, 1)), (0, ExchangeEvent::OrderBatchCompleted), (0, taker)]))
        .unwrap()
        .events()
        .is_empty());
    // the taker fill belongs to the next transaction
    assert!(processor
        .process_block(&block(vec![(0, request(7, 0)), (0, maker(16, 1, 11, 1, 1)), (1, taker)]))
        .unwrap()
        .events()
        .is_empty());
    // a perpetual that is not configured
    assert!(processor
        .process_block(&block(vec![(0, request(7, 0)), (0, maker(48, 1, 11, 1, 1)), (0, taker)]))
        .unwrap()
        .events()
        .is_empty());
    // nothing is left over for the next block
    assert!(processor.process_block(&block(vec![(0, request(7, 0)), (0, maker(16, 1, 11, 1, 1))])).unwrap().events().is_empty());
    assert!(processor.process_block(&block(vec![(0, taker)])).unwrap().events().is_empty());
}

#[test]
fn maker_fills_from_another_transaction_are_dropped() {
    let mut processor = TradeProcessor::new(config());
    let events = vec![
        EventContext::new(TxHash::new(0, 1), 0, 0, request(7, 1)),
        EventContext::new(TxHash::new(0, 1), 0, 1, maker(16, 1, 11, 1_000_000, 100_000)),
        // same transaction index, another hash
        EventContext::new(TxHash::new(0, 2), 0, 2, ExchangeEvent::TakerOrderFilled { fee_cns: 1 }),
        EventContext::new(TxHash::new(0, 1), 0, 3, maker(16, 1, 12, 1_000_000, 100_000)),
        EventContext::new(TxHash::new(0, 1), 0, 4, ExchangeEvent::TakerOrderFilled { fee_cns: 1 }),
    ];
    let trades = processor.process_block(&BlockEvents::new(StateInstant::new(1, 1), events)).unwrap();
    // the first taker fill is skipped and clears the buffer; the second closes a trade
    assert_eq!(trades.events().len(), 1);
    assert_eq!(trades.events()[0].event().maker_fills.len(), 1);
    assert_eq!(trades.events()[0].event().maker_fills[0].maker_order_id, 12);
    assert_eq!(trades.events()[0].event().taker_side, OrderSide::Ask);
}

#[test]
fn maker_order_id_zero_fails_the_block() {
    let mut processor = TradeProcessor::new(config());
    let result = processor.process_block(&block(vec![(0, request(7, 0)), (0, maker(16, 1, 0, 1, 1))]));
    assert!(matches!(result, Err(DexError::InvalidOrderId)));
    let result = processor.process_block(&block(vec![(0, request(7, 0)), (0, maker(16, 1, 1, u128::MAX, 1))]));
    assert!(matches!(result, Err(DexError::NumericOverflow)));
}

#[test]
fn trade_totals() {
    let fill = |price: u64, size: Decimal, fee: Decimal| MakerFill {
        log_index: 0,
        maker_account_id: 1,
        maker_order_id: 1,
        price: whole(price),
        size,
        fee,
    };
    let mut trade = Trade {
        perpetual_id: 16,
        taker_account_id: 2,
        taker_side: OrderSide::Ask,
        taker_fee: Decimal::zero(),
        maker_fills: vec![],
    };
    assert_eq!(trade.total_size(), Some(Decimal::zero()));
    assert_eq!(trade.avg_price(), None);
    assert_eq!(trade.total_maker_fees(), Some(Decimal::zero()));
    trade.maker_fills = vec![fill(100, whole(1), dec(1, 2)), fill(200, whole(3), dec(2, 2))];
    assert_eq!(trade.total_size(), Some(whole(4)));
    assert_eq!(trade.avg_price(), Some(whole(175)));
    assert_eq!(trade.total_maker_fees(), Some(dec(3, 2)));
    // fills without size have no average price
    trade.maker_fills = vec![fill(100, Decimal::zero(), Decimal::zero())];
    assert_eq!(trade.avg_price(), None);
    // sums beyond the range are reported
    trade.maker_fills = vec![
        fill(1, Decimal::from_units(u128::MAX), Decimal::from_units(u128::MAX)),
        fill(1, Decimal::from_units(1), Decimal::from_units(1)),
    ];
    assert_eq!(trade.total_size(), None);
    assert_eq!(trade.total_maker_fees(), None);
    assert_eq!(trade.avg_price(), None);
}
