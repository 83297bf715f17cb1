//! Trades aggregated from the raw events of the exchange.
//!
//! Every taker fill closes the maker fills that came before it in the same
//! order request; together they make one trade. The processor keeps no
//! state from block to block.

use vstd::prelude::*;

use crate::error::DexError;
use crate::num::Converter;
use crate::state::apply::{all_from, fills_of};
use crate::state::keyed::{distinct, has_key, key_index, lemma_key_index};
use crate::state::position::{convert, units_or_overflow};
use crate::state::transition::{pending_fills, same_transaction, PendingFill, TradeModel};
use crate::types::event::{BlockEvents, EventContext, ExchangeEvent, RawBlockEvents, RawEvent};
use crate::types::order::OrderSide;
use crate::types::request::RequestType;
use crate::types::trade::{MakerFill, Trade};
use crate::types::{AccountId, PerpetualId, TxHash};

verus! {

/// A trade with the place in the block of the taker fill that closed it.
pub type TradeEvent = EventContext<Trade>;

/// The trades of one block.
pub type BlockTrades = BlockEvents<TradeEvent>;

/// Converters for a single perpetual.
#[derive(Clone, Copy, Debug, PartialEq, Eq, Structural)]
pub struct PerpetualConverters {
    pub perpetual_id: PerpetualId,
    pub price_converter: Converter,
    pub size_converter: Converter,
}

/// Configuration for normalization: the scales of the collateral token and
/// of every perpetual contract whose trades are to be followed.
#[derive(Clone, Debug)]
pub struct NormalizationConfig {
    pub collateral_converter: Converter,
    pub perpetuals: Vec<PerpetualConverters>,
}

/// The taker of the open order request.
#[derive(Clone, Copy, Debug, PartialEq, Eq, Structural)]
pub struct TakerContext {
    pub account_id: AccountId,
    pub side: OrderSide,
}

/// Trade processor - pure logic, no I/O.
pub struct TradeProcessor {
    pub config: NormalizationConfig,
    pub order_context: Option<TakerContext>,
    pub pending_maker_fills: Vec<PendingFill>,
    pub prev_tx_index: Option<u64>,
}

/// What the processor remembers within one transaction.
pub struct TradeScratch {
    pub order_context: Option<TakerContext>,
    pub pending: Seq<PendingFill>,
    pub prev_tx_index: Option<u64>,
}

/// A trade event as a mathematical value.
pub struct TradeEventModel {
    pub tx_hash: TxHash,
    pub tx_index: u64,
    pub log_index: u64,
    pub trade: TradeModel,
}

/// The outcome of the events of a block so far.
pub struct TradeRun {
    pub scratch: TradeScratch,
    pub trades: Seq<TradeEventModel>,
}

/// The IDs of the configured perpetual contracts, in their order.
pub open spec fn converter_keys(perpetuals: Seq<PerpetualConverters>) -> Seq<u32> {
    Seq::new(perpetuals.len(), |i: int| perpetuals[i].perpetual_id)
}

/// The value of a trade event.
pub open spec fn trade_event_model(event: TradeEvent) -> TradeEventModel {
    TradeEventModel {
        tx_hash: event.tx_hash,
        tx_index: event.tx_index,
        log_index: event.log_index,
        trade: event.event@,
    }
}

/// The values of the trade events, in their order.
pub open spec fn trade_event_models(events: Seq<TradeEvent>) -> Seq<TradeEventModel> {
    Seq::new(events.len(), |i: int| trade_event_model(events[i]))
}

impl NormalizationConfig {
    /// No perpetual contract is configured twice.
    pub open spec fn wf(&self) -> bool {
        distinct(converter_keys(self.perpetuals@))
    }

    /// The converters of the perpetual contract, if it is configured.
    pub open spec fn converters(&self, perpetual_id: PerpetualId) -> Option<PerpetualConverters> {
        if has_key(converter_keys(self.perpetuals@), perpetual_id) {
            Some(self.perpetuals@[key_index(converter_keys(self.perpetuals@), perpetual_id)])
        } else {
            None
        }
    }

    /// A configuration of the given converters. A perpetual contract that is
    /// configured twice is refused.
    pub fn new(collateral_converter: Converter, perpetuals: Vec<PerpetualConverters>) -> (r: Result<
        NormalizationConfig,
        DexError,
    >)
        ensures
            distinct(converter_keys(perpetuals@)) ==> r is Ok && r->Ok_0.wf()
                && r->Ok_0.collateral_converter == collateral_converter && r->Ok_0.perpetuals
                == perpetuals,
            !distinct(converter_keys(perpetuals@)) ==> r is Err && r->Err_0
                == DexError::InvalidArgument,
    {
        let ghost keys = converter_keys(perpetuals@);
        let mut i: usize = 0;
        while i < perpetuals.len()
            invariant
                0 <= i <= perpetuals@.len(),
                keys == converter_keys(perpetuals@),
                forall|a: int, b: int| 0 <= a < b < i ==> keys[a] != keys[b],
            decreases perpetuals@.len() - i,
        {
            let mut j: usize = 0;
            while j < i
                invariant
                    0 <= j <= i < perpetuals@.len(),
                    keys == converter_keys(perpetuals@),
                    forall|a: int| 0 <= a < j ==> keys[a] != keys[i as int],
                decreases i - j,
            {
                if perpetuals[j].perpetual_id == perpetuals[i].perpetual_id {
                    assert(keys[j as int] == keys[i as int]);
                    return Err(DexError::InvalidArgument);
                }
                j = j + 1;
            }
            i = i + 1;
        }
        assert(distinct(keys)) by {
            assert forall|a: int, b: int|
                0 <= a < keys.len() && 0 <= b < keys.len() && a != b implies #[trigger] keys[a]
                != #[trigger] keys[b] by {
                if a < b {
                    assert(keys[a] != keys[b]);
                } else {
                    assert(keys[b] != keys[a]);
                }
            }
        }
        Ok(NormalizationConfig { collateral_converter, perpetuals })
    }

    /// The converters of the perpetual contract, if it is configured.
    pub fn find(&self, perpetual_id: PerpetualId) -> (r: Option<PerpetualConverters>)
        requires
            self.wf(),
        ensures
            r == self.converters(perpetual_id),
    {
        let ghost keys = converter_keys(self.perpetuals@);
        let mut i: usize = 0;
        while i < self.perpetuals.len()
            invariant
                0 <= i <= self.perpetuals@.len(),
                keys == converter_keys(self.perpetuals@),
                distinct(keys),
                forall|j: int| 0 <= j < i ==> keys[j] != perpetual_id,
            decreases self.perpetuals@.len() - i,
        {
            if self.perpetuals[i].perpetual_id == perpetual_id {
                proof {
                    assert(keys[i as int] == perpetual_id);
                    lemma_key_index(keys, i as int);
                }
                return Some(self.perpetuals[i]);
            }
            i = i + 1;
        }
        None
    }
}

impl TradeScratch {
    /// Nothing is remembered.
    pub open spec fn empty() -> TradeScratch {
        TradeScratch { order_context: None, pending: Seq::empty(), prev_tx_index: None }
    }

    /// What is left at the start of the event of transaction `tx_index`: the
    /// order context and the pending fills are forgotten when the
    /// transaction is a later one than that of the event before.
    pub open spec fn entering(&self, tx_index: u64) -> TradeScratch {
        match self.prev_tx_index {
            Some(prev) => if prev < tx_index {
                TradeScratch { order_context: None, pending: Seq::empty(), ..*self }
            } else {
                *self
            },
            None => *self,
        }
    }
}

/// What a maker fill does: it waits for its taker fill, if its perpetual
/// contract is configured. A maker order ID of zero is an error.
pub open spec fn maker_fill_step(
    config: NormalizationConfig,
    scratch: TradeScratch,
    raw: RawEvent,
) -> Result<TradeScratch, DexError>
    recommends
        raw.event is MakerOrderFilled,
{
    let event = raw.event;
    if event->MakerOrderFilled_order_id == 0 {
        Err(DexError::InvalidOrderId)
    } else {
        match config.converters(event->MakerOrderFilled_perpetual_id) {
            None => Ok(scratch),
            Some(converters) => match (
                units_or_overflow(
                    converters.price_converter.units_of(event->MakerOrderFilled_price_pns as nat),
                ),
                units_or_overflow(
                    converters.size_converter.units_of(event->MakerOrderFilled_lot_lns as nat),
                ),
                units_or_overflow(
                    config.collateral_converter.units_of(event->MakerOrderFilled_fee_cns as nat),
                ),
            ) {
                (Ok(price), Ok(size), Ok(fee)) => Ok(
                    TradeScratch {
                        pending: scratch.pending.push(
                            PendingFill {
                                tx_hash: raw.tx_hash,
                                perpetual_id: event->MakerOrderFilled_perpetual_id,
                                fill: MakerFill {
                                    log_index: raw.log_index,
                                    maker_account_id: event->MakerOrderFilled_account_id,
                                    maker_order_id: event->MakerOrderFilled_order_id,
                                    price,
                                    size,
                                    fee,
                                },
                            },
                        ),
                        ..scratch
                    },
                ),
                _ => Err(DexError::NumericOverflow),
            },
        }
    }
}

/// The trade that a taker fill closes: the pending maker fills with the
/// taker of the open request. There is none without pending fills, without
/// an open trading request, or where a pending fill comes from another
/// transaction than the taker fill.
pub open spec fn taker_fill_trade(
    config: NormalizationConfig,
    scratch: TradeScratch,
    raw: RawEvent,
) -> Result<Option<TradeEventModel>, DexError>
    recommends
        raw.event is TakerOrderFilled,
{
    if scratch.pending.len() == 0 {
        Ok(None)
    } else {
        match scratch.order_context {
            None => Ok(None),
            Some(ctx) => if !same_transaction(scratch.pending, raw.tx_hash) {
                Ok(None)
            } else {
                match units_or_overflow(
                    config.collateral_converter.units_of(
                        raw.event->TakerOrderFilled_fee_cns as nat,
                    ),
                ) {
                    Err(e) => Err(e),
                    Ok(fee) => Ok(
                        Some(
                            TradeEventModel {
                                tx_hash: raw.tx_hash,
                                tx_index: raw.tx_index,
                                log_index: raw.log_index,
                                trade: TradeModel {
                                    perpetual_id: scratch.pending[0].perpetual_id,
                                    taker_account_id: ctx.account_id,
                                    taker_side: ctx.side,
                                    taker_fee: fee,
                                    maker_fills: pending_fills(scratch.pending),
                                },
                            },
                        ),
                    ),
                }
            },
        }
    }
}

/// What one event does to what the processor remembers, and the trade it
/// closes, if it closes one.
pub open spec fn trade_step(config: NormalizationConfig, scratch: TradeScratch, raw: RawEvent) -> Result<
    (TradeScratch, Option<TradeEventModel>),
    DexError,
> {
    match raw.event {
        ExchangeEvent::OrderRequest { account_id, request_type, .. } => match RequestType::spec_from_u8(
            request_type,
        ) {
            Some(t) => match t.spec_try_side() {
                Some(side) => Ok(
                    (
                        TradeScratch {
                            order_context: Some(TakerContext { account_id, side }),
                            ..scratch
                        },
                        None,
                    ),
                ),
                None => Ok((scratch, None)),
            },
            None => Ok((scratch, None)),
        },
        ExchangeEvent::OrderBatchCompleted => Ok(
            (TradeScratch { order_context: None, pending: Seq::empty(), ..scratch }, None),
        ),
        ExchangeEvent::MakerOrderFilled { .. } => match maker_fill_step(config, scratch, raw) {
            Ok(s) => Ok((s, None)),
            Err(e) => Err(e),
        },
        ExchangeEvent::TakerOrderFilled { .. } => match taker_fill_trade(config, scratch, raw) {
            Ok(trade) => Ok((TradeScratch { pending: Seq::empty(), ..scratch }, trade)),
            Err(e) => Err(e),
        },
        _ => Ok((scratch, None)),
    }
}

/// What the next event of a block does to the outcome of the events before
/// it.
#[verifier::opaque]
pub open spec fn trade_advance(config: NormalizationConfig, before: TradeRun, raw: RawEvent) -> Result<
    TradeRun,
    DexError,
> {
    match trade_step(config, before.scratch.entering(raw.tx_index), raw) {
        Err(e) => Err(e),
        Ok((scratch, trade)) => Ok(
            TradeRun {
                scratch: TradeScratch { prev_tx_index: Some(raw.tx_index), ..scratch },
                trades: match trade {
                    Some(t) => before.trades.push(t),
                    None => before.trades,
                },
            },
        ),
    }
}

/// The trades that the first `n` events of a block close, starting with
/// nothing remembered.
pub open spec fn trade_run(config: NormalizationConfig, events: Seq<RawEvent>, n: int) -> Result<
    TradeRun,
    DexError,
>
    decreases n,
{
    if n <= 0 {
        Ok(TradeRun { scratch: TradeScratch::empty(), trades: Seq::empty() })
    } else {
        match trade_run(config, events, n - 1) {
            Err(e) => Err(e),
            Ok(before) => trade_advance(config, before, events[n - 1]),
        }
    }
}

/// Once an event of a block fails, the block fails with that error however
/// many events follow.
pub proof fn lemma_trade_run_error(config: NormalizationConfig, events: Seq<RawEvent>, n: int, m: int)
    requires
        0 <= n <= m,
        trade_run(config, events, n) is Err,
    ensures
        trade_run(config, events, m) == trade_run(config, events, n),
    decreases m - n,
{
    if n < m {
        lemma_trade_run_error(config, events, n, m - 1);
    }
}

impl View for TradeProcessor {
    type V = TradeScratch;

    open spec fn view(&self) -> TradeScratch {
        TradeScratch {
            order_context: self.order_context,
            pending: self.pending_maker_fills@,
            prev_tx_index: self.prev_tx_index,
        }
    }
}

impl TradeProcessor {
    /// Create a new trade processor with the given normalization config.
    pub fn new(config: NormalizationConfig) -> (r: TradeProcessor)
        ensures
            r.config == config,
            r@ == TradeScratch::empty(),
    {
        TradeProcessor {
            config,
            order_context: None,
            pending_maker_fills: Vec::new(),
            prev_tx_index: None,
        }
    }

    /// Forgets the order request and the pending fills.
    fn reset(&mut self)
        ensures
            final(self).config == old(self).config,
            final(self)@ == (TradeScratch {
                order_context: None,
                pending: Seq::empty(),
                ..old(self)@
            }),
    {
        self.order_context = None;
        self.pending_maker_fills = Vec::new();
    }

    /// Lets a maker fill wait for its taker fill.
    fn handle_maker_fill(&mut self, raw: &RawEvent) -> (r: Result<(), DexError>)
        requires
            old(self).config.wf(),
            raw.event is MakerOrderFilled,
        ensures
            final(self).config == old(self).config,
            match maker_fill_step(old(self).config, old(self)@, *raw) {
                Ok(scratch) => r is Ok && final(self)@ == scratch,
                Err(e) => r is Err && r->Err_0 == e,
            },
    {
        match raw.event {
            ExchangeEvent::MakerOrderFilled {
                perpetual_id,
                account_id,
                order_id,
                price_pns,
                lot_lns,
                fee_cns,
            } => {
                if order_id == 0 {
                    return Err(DexError::InvalidOrderId);
                }
                let converters = match self.config.find(perpetual_id) {
                    Some(c) => c,
                    None => {
                        return Ok(());
                    },
                };
                let price = convert(converters.price_converter, price_pns);
                let size = convert(converters.size_converter, lot_lns);
                let fee = convert(self.config.collateral_converter, fee_cns);
                match (price, size, fee) {
                    (Ok(price), Ok(size), Ok(fee)) => {
                        self.pending_maker_fills.push(
                            PendingFill {
                                tx_hash: raw.tx_hash,
                                perpetual_id,
                                fill: MakerFill {
                                    log_index: raw.log_index,
                                    maker_account_id: account_id,
                                    maker_order_id: order_id,
                                    price,
                                    size,
                                    fee,
                                },
                            },
                        );
                        Ok(())
                    },
                    _ => Err(DexError::NumericOverflow),
                }
            },
            _ => {
                assert(false);
                Err(DexError::InvalidEvent)
            },
        }
    }

    /// Closes the trade of a taker fill.
    fn handle_taker_fill(&mut self, raw: &RawEvent) -> (r: Result<Option<TradeEvent>, DexError>)
        requires
            raw.event is TakerOrderFilled,
        ensures
            final(self).config == old(self).config,
            match taker_fill_trade(old(self).config, old(self)@, *raw) {
                Ok(Some(trade)) => r is Ok && r->Ok_0 is Some && trade_event_model(
                    r->Ok_0->Some_0,
                ) == trade && final(self)@ == (TradeScratch {
                    pending: Seq::empty(),
                    ..old(self)@
                }),
                Ok(None) => r is Ok && r->Ok_0 is None && final(self)@ == (TradeScratch {
                    pending: Seq::empty(),
                    ..old(self)@
                }),
                Err(e) => r is Err && r->Err_0 == e,
            },
    {
        match raw.event {
            ExchangeEvent::TakerOrderFilled { fee_cns } => {
                let mut makers: Vec<PendingFill> = Vec::new();
                core::mem::swap(&mut makers, &mut self.pending_maker_fills);
                assert(self@.pending =~= Seq::<PendingFill>::empty());
                if makers.len() == 0 {
                    return Ok(None);
                }
                let ctx = match self.order_context {
                    Some(c) => c,
                    None => {
                        return Ok(None);
                    },
                };
                if !all_from(&makers, raw.tx_hash) {
                    return Ok(None);
                }
                let fee = match convert(self.config.collateral_converter, fee_cns) {
                    Ok(f) => f,
                    Err(e) => {
                        return Err(e);
                    },
                };
                Ok(
                    Some(
                        raw.pass(
                            Trade {
                                perpetual_id: makers[0].perpetual_id,
                                taker_account_id: ctx.account_id,
                                taker_side: ctx.side,
                                taker_fee: fee,
                                maker_fills: fills_of(&makers),
                            },
                        ),
                    ),
                )
            },
            _ => {
                assert(false);
                Err(DexError::InvalidEvent)
            },
        }
    }

    /// Process a single event, potentially emitting a trade.
    fn process_event(&mut self, raw: &RawEvent) -> (r: Result<Option<TradeEvent>, DexError>)
        requires
            old(self).config.wf(),
        ensures
            final(self).config == old(self).config,
            match trade_step(old(self).config, old(self)@, *raw) {
                Ok((scratch, Some(trade))) => r is Ok && r->Ok_0 is Some && trade_event_model(
                    r->Ok_0->Some_0,
                ) == trade && final(self)@ == scratch,
                Ok((scratch, None)) => r is Ok && r->Ok_0 is None && final(self)@ == scratch,
                Err(e) => r is Err && r->Err_0 == e,
            },
    {
        match raw.event {
            ExchangeEvent::OrderRequest { account_id, request_type, .. } => {
                match RequestType::from_u8(request_type) {
                    Some(t) => {
                        match t.try_side() {
                            Some(side) => {
                                self.order_context = Some(TakerContext { account_id, side });
                            },
                            None => {},
                        }
                    },
                    None => {},
                }
                Ok(None)
            },
            ExchangeEvent::OrderBatchCompleted => {
                self.reset();
                Ok(None)
            },
            ExchangeEvent::MakerOrderFilled { .. } => {
                match self.handle_maker_fill(raw) {
                    Ok(_) => Ok(None),
                    Err(e) => Err(e),
                }
            },
            ExchangeEvent::TakerOrderFilled { .. } => self.handle_taker_fill(raw),
            _ => Ok(None),
        }
    }

    /// Applies the next event of a block and adds the trade it closes, if it
    /// closes one.
    fn process_next(&mut self, trades: &mut Vec<TradeEvent>, raw: &RawEvent) -> (r: Result<
        (),
        DexError,
    >)
        requires
            old(self).config.wf(),
        ensures
            final(self).config == old(self).config,
            match trade_advance(
                old(self).config,
                TradeRun { scratch: old(self)@, trades: trade_event_models(old(trades)@) },
                *raw,
            ) {
                Ok(next) => r is Ok && next == (TradeRun {
                    scratch: final(self)@,
                    trades: trade_event_models(final(trades)@),
                }),
                Err(e) => r is Err && r->Err_0 == e,
            },
    {
        reveal(trade_advance);
        let ghost before = trades@;
        match self.prev_tx_index {
            Some(prev) => {
                if prev < raw.tx_index {
                    self.reset();
                }
            },
            None => {},
        }
        match self.process_event(raw) {
            Ok(trade) => {
                match trade {
                    Some(t) => {
                        trades.push(t);
                        proof {
                            assert(trade_event_models(trades@) =~= trade_event_models(before).push(
                                trade_event_model(t),
                            ));
                        }
                    },
                    None => {},
                }
                self.prev_tx_index = Some(raw.tx_index);
                Ok(())
            },
            Err(e) => Err(e),
        }
    }

    /// Process a block of raw events and extract trades.
    ///
    /// The processor starts every block with nothing remembered. A block
    /// without trades gives an empty batch. A maker fill with an order ID of
    /// zero, or an amount beyond the range of the decimal type, fails the
    /// block.
    pub fn process_block(&mut self, events: &RawBlockEvents) -> (r: Result<BlockTrades, DexError>)
        requires
            old(self).config.wf(),
        ensures
            final(self).config == old(self).config,
            match trade_run(old(self).config, events.events@, events.events@.len() as int) {
                Ok(done) => r is Ok && r->Ok_0.instant == events.instant && trade_event_models(
                    r->Ok_0.events@,
                ) == done.trades && final(self)@ == done.scratch,
                Err(e) => r is Err && r->Err_0 == e,
            },
    {
        self.reset();
        self.prev_tx_index = None;
        let mut trades: Vec<TradeEvent> = Vec::new();
        let mut i: usize = 0;
        assert(trade_event_models(trades@) =~= Seq::<TradeEventModel>::empty());
        while i < events.events.len()
            invariant
                0 <= i <= events.events@.len(),
                self.config == old(self).config,
                self.config.wf(),
                trade_run(self.config, events.events@, i as int) == Ok::<TradeRun, DexError>(
                    TradeRun { scratch: self@, trades: trade_event_models(trades@) },
                ),
            decreases events.events@.len() - i,
        {
            let ghost before = TradeRun { scratch: self@, trades: trade_event_models(trades@) };
            match self.process_next(&mut trades, &events.events[i]) {
                Ok(_) => {},
                Err(e) => {
                    proof {
                        assert(trade_run(self.config, events.events@, i + 1) == trade_advance(
                            self.config,
                            before,
                            events.events@[i as int],
                        ));
                        lemma_trade_run_error(
                            self.config,
                            events.events@,
                            i + 1,
                            events.events@.len() as int,
                        );
                    }
                    return Err(e);
                },
            }
            proof {
                assert(trade_run(self.config, events.events@, i + 1) == trade_advance(
                    self.config,
                    before,
                    events.events@[i as int],
                ));
            }
            i = i + 1;
        }
        Ok(BlockEvents::new(events.instant, trades))
    }
}

} // verus!
