//! Perpetual contracts.

use vstd::prelude::*;

use crate::error::DexError;
use crate::num::{Converter, Decimal};
use crate::state::l3_book::rebuild::{add_all, link_order, MAX_RANK};
use crate::state::l3_book::{add_check, update_check, BookError, BookModel, OrderBook};
use crate::state::order::Order;
use crate::types::{OrderId, PerpetualId, StateInstant};

verus! {

/// Number of fractional digits of the fees the exchange stores.
pub const FEE_SCALE: u8 = 5;

/// Number of fractional digits of the leverages and margins the exchange
/// stores.
pub const LEVERAGE_SCALE: u8 = 2;

/// A perpetual contract as the exchange stores it, in its own integers.
#[derive(Clone, Debug)]
pub struct PerpetualInfo {
    pub name: String,
    pub symbol: String,
    pub paused: bool,
    pub price_decimals: u8,
    pub lot_decimals: u8,
    pub base_price_pns: u128,
    /// Price of the last trade.
    pub mark_pns: u128,
    pub mark_timestamp: u64,
    /// The price the exchange uses as mark price.
    pub index_pns: u128,
    pub index_timestamp: u64,
    pub oracle_pns: u128,
    pub oracle_timestamp_sec: u64,
    pub funding_start_block: u64,
    pub ref_price_max_age_sec: u64,
    pub long_open_interest_lns: u128,
}

/// Parameters and market data of a perpetual contract.
#[derive(Clone, Copy, Debug, PartialEq, Eq, Structural)]
pub struct PerpetualState {
    pub instant: StateInstant,
    pub id: PerpetualId,
    pub is_paused: bool,
    pub price_converter: Converter,
    pub size_converter: Converter,
    pub leverage_converter: Converter,
    pub fee_converter: Converter,
    pub base_price: Decimal,
    pub maker_fee: Decimal,
    pub taker_fee: Decimal,
    pub initial_margin: Decimal,
    pub maintenance_margin: Decimal,
    pub last_price: Decimal,
    pub last_price_block: Option<u64>,
    pub last_price_timestamp: u64,
    pub mark_price: Decimal,
    pub mark_price_block: Option<u64>,
    pub mark_price_timestamp: u64,
    pub oracle_price: Decimal,
    pub oracle_price_block: Option<u64>,
    pub oracle_price_timestamp: u64,
    pub funding_start_block: u64,
    pub price_max_age: u64,
    pub open_interest: Decimal,
}

/// Perpetual contract tradeable at the exchange.
///
/// Provides the current state of contract parameters, market data and
/// order book.
pub struct Perpetual {
    pub state: PerpetualState,
    pub name: String,
    pub symbol: String,
    pub book: OrderBook,
}

/// A perpetual contract as a mathematical value.
pub struct PerpModel {
    pub state: PerpetualState,
    pub name: Seq<char>,
    pub symbol: Seq<char>,
    pub book: BookModel,
}

impl View for Perpetual {
    type V = PerpModel;

    open spec fn view(&self) -> PerpModel {
        PerpModel { state: self.state, name: self.name@, symbol: self.symbol@, book: self.book@ }
    }
}

/// The engine's error for a refusal of the book of the given perpetual.
pub open spec fn spec_book_error(perpetual_id: PerpetualId, e: BookError) -> DexError {
    match e {
        BookError::InvalidOrderId => DexError::InvalidOrderId,
        BookError::DuplicateOrderId(id) => DexError::DuplicateOrderId(perpetual_id, id),
        BookError::OrderNotFound(id) => DexError::OrderNotFound(perpetual_id, id),
        BookError::SizeOverflow => DexError::NumericOverflow,
    }
}

/// The engine's error for a refusal of the book of the given perpetual.
#[verifier::when_used_as_spec(spec_book_error)]
pub fn book_error(perpetual_id: PerpetualId, e: BookError) -> (r: DexError)
    ensures
        r == spec_book_error(perpetual_id, e),
{
    match e {
        BookError::InvalidOrderId => DexError::InvalidOrderId,
        BookError::DuplicateOrderId(id) => DexError::DuplicateOrderId(perpetual_id, id),
        BookError::OrderNotFound(id) => DexError::OrderNotFound(perpetual_id, id),
        BookError::SizeOverflow => DexError::NumericOverflow,
    }
}

impl PerpetualState {
    /// Whether a price of the given timestamp is obsolete at this state's
    /// instant: older than the maximum age.
    pub open spec fn obsolete(&self, timestamp: u64) -> bool {
        timestamp + self.price_max_age <= self.instant.block_timestamp
    }

    /// The open interest after a position has gone from a long size of
    /// `prev_size` to one of `new_size`; none where it leaves the range of
    /// the type. What is taken off is taken off as far as there is open
    /// interest.
    pub open spec fn spec_open_interest(&self, prev_size: Decimal, new_size: Decimal) -> Option<
        Decimal,
    > {
        let base = if self.open_interest.units >= prev_size.units {
            self.open_interest.units - prev_size.units
        } else {
            0
        };
        if base + new_size.units <= u128::MAX {
            Some(Decimal { units: (base + new_size.units) as u128 })
        } else {
            None
        }
    }
}

impl PerpModel {
    /// The contract after `order` has been placed, or why it cannot be.
    pub open spec fn add_order(&self, order: Order) -> Result<PerpModel, DexError> {
        match add_check(self.book, order) {
            Ok(_) => Ok(PerpModel { book: self.book.add(order), ..*self }),
            Err(e) => Err(spec_book_error(self.state.id, e)),
        }
    }

    /// The contract after the order under `order.order_id` has been
    /// replaced, or why it cannot be.
    pub open spec fn update_order(&self, order: Order) -> Result<PerpModel, DexError> {
        match update_check(self.book, order) {
            Ok(_) => Ok(PerpModel { book: self.book.update(order), ..*self }),
            Err(e) => Err(spec_book_error(self.state.id, e)),
        }
    }

    /// The contract after the order `id` has been removed, with the order,
    /// or why it cannot be.
    pub open spec fn remove_order(&self, id: OrderId) -> Result<(PerpModel, Order), DexError> {
        if self.book.orders.contains_key(id) {
            Ok((PerpModel { book: self.book.remove(id), ..*self }, self.book.orders[id]))
        } else {
            Err(DexError::OrderNotFound(self.state.id, id))
        }
    }

    /// The contract after a position has gone from a long size of
    /// `prev_size` to one of `new_size`, or the overflow error.
    pub open spec fn update_open_interest(
        &self,
        instant: StateInstant,
        prev_size: Decimal,
        new_size: Decimal,
    ) -> Result<PerpModel, DexError> {
        match self.state.spec_open_interest(prev_size, new_size) {
            Some(open_interest) => Ok(
                PerpModel { state: PerpetualState { instant, open_interest, ..self.state }, ..*self },
            ),
            None => Err(DexError::NumericOverflow),
        }
    }

    /// The contract after the end-of-block expiry step.
    pub open spec fn expire(&self, instant: StateInstant) -> PerpModel {
        PerpModel { book: self.book.expire(instant), ..*self }
    }
}

impl Perpetual {
    /// The contract's book is consistent.
    pub open spec fn wf(&self) -> bool {
        self.book.wf()
    }

    /// What [`Perpetual::new`] makes of the numbers that the exchange
    /// stores: every price at the price scale, the open interest at the size
    /// scale, fees at five and margins at two fractional digits.
    pub open spec fn spec_new_state(
        instant: StateInstant,
        id: PerpetualId,
        info: PerpetualInfo,
        maker_fee: u128,
        taker_fee: u128,
        initial_margin: u128,
        maintenance_margin: u128,
    ) -> Option<PerpetualState> {
        let pc = Converter { decimals: info.price_decimals };
        let sc = Converter { decimals: info.lot_decimals };
        let fc = Converter { decimals: FEE_SCALE };
        let lc = Converter { decimals: LEVERAGE_SCALE };
        if pc.units_of(info.base_price_pns as nat) > u128::MAX || fc.units_of(maker_fee as nat)
            > u128::MAX || fc.units_of(taker_fee as nat) > u128::MAX || lc.units_of(
            initial_margin as nat,
        ) > u128::MAX || lc.units_of(maintenance_margin as nat) > u128::MAX || pc.units_of(
            info.mark_pns as nat,
        ) > u128::MAX || pc.units_of(info.index_pns as nat) > u128::MAX || pc.units_of(
            info.oracle_pns as nat,
        ) > u128::MAX || sc.units_of(info.long_open_interest_lns as nat) > u128::MAX {
            None
        } else {
            Some(
                PerpetualState {
                    instant,
                    id,
                    is_paused: info.paused,
                    price_converter: pc,
                    size_converter: sc,
                    leverage_converter: lc,
                    fee_converter: fc,
                    base_price: Decimal { units: pc.units_of(info.base_price_pns as nat) as u128 },
                    maker_fee: Decimal { units: fc.units_of(maker_fee as nat) as u128 },
                    taker_fee: Decimal { units: fc.units_of(taker_fee as nat) as u128 },
                    initial_margin: Decimal { units: lc.units_of(initial_margin as nat) as u128 },
                    maintenance_margin: Decimal {
                        units: lc.units_of(maintenance_margin as nat) as u128,
                    },
                    last_price: Decimal { units: pc.units_of(info.mark_pns as nat) as u128 },
                    last_price_block: None,
                    last_price_timestamp: info.mark_timestamp,
                    mark_price: Decimal { units: pc.units_of(info.index_pns as nat) as u128 },
                    mark_price_block: None,
                    mark_price_timestamp: info.index_timestamp,
                    oracle_price: Decimal { units: pc.units_of(info.oracle_pns as nat) as u128 },
                    oracle_price_block: None,
                    oracle_price_timestamp: info.oracle_timestamp_sec,
                    funding_start_block: info.funding_start_block,
                    price_max_age: info.ref_price_max_age_sec,
                    open_interest: Decimal {
                        units: sc.units_of(info.long_open_interest_lns as nat) as u128,
                    },
                },
            )
        }
    }

    /// The contract that the exchange stores as `info`, with an empty book.
    /// What the exchange calls the mark price is the price of the last
    /// trade, and its index price serves as mark price. Fails with
    /// `NumericOverflow` exactly when a quantity leaves the range of the
    /// decimal type.
    pub fn new(
        instant: StateInstant,
        id: PerpetualId,
        info: &PerpetualInfo,
        maker_fee: u128,
        taker_fee: u128,
        initial_margin: u128,
        maintenance_margin: u128,
    ) -> (r: Result<Perpetual, DexError>)
        ensures
            match Perpetual::spec_new_state(
                instant,
                id,
                *info,
                maker_fee,
                taker_fee,
                initial_margin,
                maintenance_margin,
            ) {
                Some(state) => r is Ok && r.unwrap().wf() && r.unwrap()@.state == state
                    && r.unwrap()@.name == info.name@ && r.unwrap()@.symbol == info.symbol@
                    && r.unwrap()@.book == OrderBook::spec_empty(),
                None => r is Err && r->Err_0 == DexError::NumericOverflow,
            },
    {
        let price_converter = Converter::new(info.price_decimals);
        let size_converter = Converter::new(info.lot_decimals);
        let fee_converter = Converter::new(FEE_SCALE);
        let leverage_converter = Converter::new(LEVERAGE_SCALE);
        let base_price = price_converter.from_unsigned(info.base_price_pns);
        let maker_fee = fee_converter.from_unsigned(maker_fee);
        let taker_fee = fee_converter.from_unsigned(taker_fee);
        let initial_margin = leverage_converter.from_unsigned(initial_margin);
        let maintenance_margin = leverage_converter.from_unsigned(maintenance_margin);
        let last_price = price_converter.from_unsigned(info.mark_pns);
        let mark_price = price_converter.from_unsigned(info.index_pns);
        let oracle_price = price_converter.from_unsigned(info.oracle_pns);
        let open_interest = size_converter.from_unsigned(info.long_open_interest_lns);
        match (
            base_price,
            maker_fee,
            taker_fee,
            initial_margin,
            maintenance_margin,
            last_price,
            mark_price,
            oracle_price,
            open_interest,
        ) {
            (
                Some(base_price),
                Some(maker_fee),
                Some(taker_fee),
                Some(initial_margin),
                Some(maintenance_margin),
                Some(last_price),
                Some(mark_price),
                Some(oracle_price),
                Some(open_interest),
            ) => Ok(
                Perpetual {
                    state: PerpetualState {
                        instant,
                        id,
                        is_paused: info.paused,
                        price_converter,
                        size_converter,
                        leverage_converter,
                        fee_converter,
                        base_price,
                        maker_fee,
                        taker_fee,
                        initial_margin,
                        maintenance_margin,
                        last_price,
                        last_price_block: None,
                        last_price_timestamp: info.mark_timestamp,
                        mark_price,
                        mark_price_block: None,
                        mark_price_timestamp: info.index_timestamp,
                        oracle_price,
                        oracle_price_block: None,
                        oracle_price_timestamp: info.oracle_timestamp_sec,
                        funding_start_block: info.funding_start_block,
                        price_max_age: info.ref_price_max_age_sec,
                        open_interest,
                    },
                    name: info.name.clone(),
                    symbol: info.symbol.clone(),
                    book: OrderBook::new(),
                },
            ),
            _ => Err(DexError::NumericOverflow),
        }
    }

    /// Instant the perpetual contract state is consistent with or was last updated at.
    pub fn instant(&self) -> (r: StateInstant)
        ensures
            r == self.state.instant,
    {
        self.state.instant
    }

    /// ID of the perpetual contract.
    pub fn id(&self) -> (r: PerpetualId)
        ensures
            r == self.state.id,
    {
        self.state.id
    }

    /// Indicates if the perpetual contract is paused.
    pub fn is_paused(&self) -> (r: bool)
        ensures
            r == self.state.is_paused,
    {
        self.state.is_paused
    }

    /// Converter of prices between the exchange's integers and decimals.
    pub fn price_converter(&self) -> (r: Converter)
        ensures
            r == self.state.price_converter,
    {
        self.state.price_converter
    }

    /// Converter of sizes between the exchange's integers and decimals.
    pub fn size_converter(&self) -> (r: Converter)
        ensures
            r == self.state.size_converter,
    {
        self.state.size_converter
    }

    /// Converter of leverage and margin between the exchange's integers and decimals.
    pub fn leverage_converter(&self) -> (r: Converter)
        ensures
            r == self.state.leverage_converter,
    {
        self.state.leverage_converter
    }

    /// Converter of fees between the exchange's integers and decimals.
    pub fn fee_converter(&self) -> (r: Converter)
        ensures
            r == self.state.fee_converter,
    {
        self.state.fee_converter
    }

    /// The price that stored order prices are offsets from.
    pub fn base_price(&self) -> (r: Decimal)
        ensures
            r == self.state.base_price,
    {
        self.state.base_price
    }

    /// Maker fee, gets collected only on position opening/increasing.
    pub fn maker_fee(&self) -> (r: Decimal)
        ensures
            r == self.state.maker_fee,
    {
        self.state.maker_fee
    }

    /// Taker fee, gets collected only on position opening/increasing.
    pub fn taker_fee(&self) -> (r: Decimal)
        ensures
            r == self.state.taker_fee,
    {
        self.state.taker_fee
    }

    /// Minimal initial margin fraction required to open a position.
    pub fn initial_margin(&self) -> (r: Decimal)
        ensures
            r == self.state.initial_margin,
    {
        self.state.initial_margin
    }

    /// Minimal maintenance margin fraction required to keep a position.
    pub fn maintenance_margin(&self) -> (r: Decimal)
        ensures
            r == self.state.maintenance_margin,
    {
        self.state.maintenance_margin
    }

    /// The price last trade was executed at.
    pub fn last_price(&self) -> (r: Decimal)
        ensures
            r == self.state.last_price,
    {
        self.state.last_price
    }

    /// The block number of the last trade.
    /// Available only from real-time events, not from the initial snapshot.
    pub fn last_price_block(&self) -> (r: Option<u64>)
        ensures
            r == self.state.last_price_block,
    {
        self.state.last_price_block
    }

    /// Unix timestamp (in seconds) of the last trade.
    pub fn last_price_timestamp(&self) -> (r: u64)
        ensures
            r == self.state.last_price_timestamp,
    {
        self.state.last_price_timestamp
    }

    /// Mark price of the contract.
    pub fn mark_price(&self) -> (r: Decimal)
        ensures
            r == self.state.mark_price,
    {
        self.state.mark_price
    }

    /// The block number of the most recent mark price update.
    /// Available only from real-time events, not from the initial snapshot.
    pub fn mark_price_block(&self) -> (r: Option<u64>)
        ensures
            r == self.state.mark_price_block,
    {
        self.state.mark_price_block
    }

    /// Unix timestamp (in seconds) of the most recent mark price update.
    pub fn mark_price_timestamp(&self) -> (r: u64)
        ensures
            r == self.state.mark_price_timestamp,
    {
        self.state.mark_price_timestamp
    }

    /// Oracle price of the contract.
    pub fn oracle_price(&self) -> (r: Decimal)
        ensures
            r == self.state.oracle_price,
    {
        self.state.oracle_price
    }

    /// The block number of the most recent oracle price update.
    /// Available only from real-time events, not from the initial snapshot.
    pub fn oracle_price_block(&self) -> (r: Option<u64>)
        ensures
            r == self.state.oracle_price_block,
    {
        self.state.oracle_price_block
    }

    /// Unix timestamp (in seconds) of the most recent oracle price update.
    pub fn oracle_price_timestamp(&self) -> (r: u64)
        ensures
            r == self.state.oracle_price_timestamp,
    {
        self.state.oracle_price_timestamp
    }

    /// Starting block number of funding intervals.
    pub fn funding_start_block(&self) -> (r: u64)
        ensures
            r == self.state.funding_start_block,
    {
        self.state.funding_start_block
    }

    /// The age, in seconds, beyond which a reference price is obsolete.
    pub fn price_max_age(&self) -> (r: u64)
        ensures
            r == self.state.price_max_age,
    {
        self.state.price_max_age
    }

    /// Open interest in the perpetual contract.
    pub fn open_interest(&self) -> (r: Decimal)
        ensures
            r == self.state.open_interest,
    {
        self.state.open_interest
    }

    /// Name of the perpetual contract.
    pub fn name(&self) -> (r: String)
        ensures
            r@ == self.name@,
    {
        self.name.clone()
    }

    /// Symbol of the perpetual contract.
    pub fn symbol(&self) -> (r: String)
        ensures
            r@ == self.symbol@,
    {
        self.symbol.clone()
    }

    /// Indicates that the mark price is obsolete and will not be accepted
    /// during the order/position settlement.
    pub fn is_mark_price_obsolete(&self) -> (r: bool)
        ensures
            r == self.state.obsolete(self.state.mark_price_timestamp),
    {
        match self.state.mark_price_timestamp.checked_add(self.state.price_max_age) {
            Some(limit) => limit <= self.state.instant.block_timestamp,
            None => false,
        }
    }

    /// Indicates that the oracle price is obsolete and will not be accepted
    /// during the order/position settlement.
    pub fn is_oracle_price_obsolete(&self) -> (r: bool)
        ensures
            r == self.state.obsolete(self.state.oracle_price_timestamp),
    {
        match self.state.oracle_price_timestamp.checked_add(self.state.price_max_age) {
            Some(limit) => limit <= self.state.instant.block_timestamp,
            None => false,
        }
    }

    /// Up to date order book with per-order visibility.
    pub fn l3_book(&self) -> (r: &OrderBook)
        ensures
            *r == self.book,
    {
        &self.book
    }

    /// Active orders in the perpetual contract book, by ascending ID.
    pub fn orders(&self) -> (r: Vec<Order>)
        requires
            self.wf(),
        ensures
            r@ == self@.book.listing(65536),
    {
        self.book.orders()
    }

    /// The active order with the given ID, if there is one.
    pub fn get_order(&self, id: OrderId) -> (r: Option<Order>)
        ensures
            r == (if self@.book.orders.contains_key(id) {
                Some(self@.book.orders[id])
            } else {
                None
            }),
    {
        self.book.get_order(id)
    }

    /// Places `order` in the book. The contract is left as it was if the
    /// book refuses.
    pub fn add_order(&mut self, order: Order) -> (r: Result<(), DexError>)
        requires
            old(self).wf(),
        ensures
            final(self).wf(),
            match old(self)@.add_order(order) {
                Ok(m) => r is Ok && final(self)@ == m,
                Err(e) => r == Err::<(), DexError>(e) && final(self)@ == old(self)@,
            },
    {
        match self.book.add_order(order) {
            Ok(_) => Ok(()),
            Err(e) => Err(book_error(self.state.id, e)),
        }
    }

    /// Replaces the order under `order.order_id`. The contract is left as it
    /// was if the book refuses.
    pub fn update_order(&mut self, order: Order) -> (r: Result<(), DexError>)
        requires
            old(self).wf(),
        ensures
            final(self).wf(),
            match old(self)@.update_order(order) {
                Ok(m) => r is Ok && final(self)@ == m,
                Err(e) => r == Err::<(), DexError>(e) && final(self)@ == old(self)@,
            },
    {
        match self.book.update_order(order) {
            Ok(_) => Ok(()),
            Err(e) => Err(book_error(self.state.id, e)),
        }
    }

    /// Removes the order with the given ID and hands it back. The contract
    /// is left as it was if the book does not hold it.
    pub fn remove_order(&mut self, order_id: OrderId) -> (r: Result<Order, DexError>)
        requires
            old(self).wf(),
        ensures
            final(self).wf(),
            match old(self)@.remove_order(order_id) {
                Ok((m, order)) => r == Ok::<Order, DexError>(order) && final(self)@ == m,
                Err(e) => r == Err::<Order, DexError>(e) && final(self)@ == old(self)@,
            },
    {
        match self.book.remove_order(order_id) {
            Ok(order) => Ok(order),
            Err(e) => Err(book_error(self.state.id, e)),
        }
    }

    /// Sets whether the contract is paused.
    pub fn update_paused(&mut self, instant: StateInstant, paused: bool)
        ensures
            final(self)@ == (PerpModel {
                state: PerpetualState { instant, is_paused: paused, ..old(self)@.state },
                ..old(self)@
            }),
            final(self).book == old(self).book,
    {
        self.state.is_paused = paused;
        self.state.instant = instant;
    }

    /// Sets the maker fee.
    pub fn update_maker_fee(&mut self, instant: StateInstant, maker_fee: Decimal)
        ensures
            final(self)@ == (PerpModel {
                state: PerpetualState { instant, maker_fee, ..old(self)@.state },
                ..old(self)@
            }),
            final(self).book == old(self).book,
    {
        self.state.maker_fee = maker_fee;
        self.state.instant = instant;
    }

    /// Sets the taker fee.
    pub fn update_taker_fee(&mut self, instant: StateInstant, taker_fee: Decimal)
        ensures
            final(self)@ == (PerpModel {
                state: PerpetualState { instant, taker_fee, ..old(self)@.state },
                ..old(self)@
            }),
            final(self).book == old(self).book,
    {
        self.state.taker_fee = taker_fee;
        self.state.instant = instant;
    }

    /// Sets the initial margin fraction.
    pub fn update_initial_margin(&mut self, instant: StateInstant, initial_margin: Decimal)
        ensures
            final(self)@ == (PerpModel {
                state: PerpetualState { instant, initial_margin, ..old(self)@.state },
                ..old(self)@
            }),
            final(self).book == old(self).book,
    {
        self.state.initial_margin = initial_margin;
        self.state.instant = instant;
    }

    /// Sets the maintenance margin fraction.
    pub fn update_maintenance_margin(&mut self, instant: StateInstant, maintenance_margin: Decimal)
        ensures
            final(self)@ == (PerpModel {
                state: PerpetualState { instant, maintenance_margin, ..old(self)@.state },
                ..old(self)@
            }),
            final(self).book == old(self).book,
    {
        self.state.maintenance_margin = maintenance_margin;
        self.state.instant = instant;
    }

    /// Sets the age beyond which a reference price is obsolete.
    pub fn update_price_max_age(&mut self, instant: StateInstant, price_max_age: u64)
        ensures
            final(self)@ == (PerpModel {
                state: PerpetualState { instant, price_max_age, ..old(self)@.state },
                ..old(self)@
            }),
            final(self).book == old(self).book,
    {
        self.state.price_max_age = price_max_age;
        self.state.instant = instant;
    }

    /// Sets the last price, as of the block of `instant`.
    pub fn update_last_price(&mut self, instant: StateInstant, last_price: Decimal)
        ensures
            final(self)@ == (PerpModel {
                state: PerpetualState {
                    instant,
                    last_price,
                    last_price_block: Some(instant.block_number),
                    last_price_timestamp: instant.block_timestamp,
                    ..old(self)@.state
                },
                ..old(self)@
            }),
            final(self).book == old(self).book,
    {
        self.state.last_price = last_price;
        self.state.last_price_block = Some(instant.block_number);
        self.state.last_price_timestamp = instant.block_timestamp;
        self.state.instant = instant;
    }

    /// Sets the mark price, as of the block of `instant`.
    pub fn update_mark_price(&mut self, instant: StateInstant, mark_price: Decimal)
        ensures
            final(self)@ == (PerpModel {
                state: PerpetualState {
                    instant,
                    mark_price,
                    mark_price_block: Some(instant.block_number),
                    mark_price_timestamp: instant.block_timestamp,
                    ..old(self)@.state
                },
                ..old(self)@
            }),
            final(self).book == old(self).book,
    {
        self.state.mark_price = mark_price;
        self.state.mark_price_block = Some(instant.block_number);
        self.state.mark_price_timestamp = instant.block_timestamp;
        self.state.instant = instant;
    }

    /// Sets the oracle price, as of the block of `instant`.
    pub fn update_oracle_price(&mut self, instant: StateInstant, oracle_price: Decimal)
        ensures
            final(self)@ == (PerpModel {
                state: PerpetualState {
                    instant,
                    oracle_price,
                    oracle_price_block: Some(instant.block_number),
                    oracle_price_timestamp: instant.block_timestamp,
                    ..old(self)@.state
                },
                ..old(self)@
            }),
            final(self).book == old(self).book,
    {
        self.state.oracle_price = oracle_price;
        self.state.oracle_price_block = Some(instant.block_number);
        self.state.oracle_price_timestamp = instant.block_timestamp;
        self.state.instant = instant;
    }

    /// Replaces the book by the book of the orders that the exchange stores,
    /// each queue in the order of its links. The contract is left as it was
    /// if the book refuses one of the orders.
    pub fn load_orders(&mut self, orders: &Vec<Order>) -> (r: Result<(), DexError>)
        requires
            old(self).wf(),
        ensures
            final(self).wf(),
            match add_all(
                OrderBook::spec_empty(),
                link_order(orders@, MAX_RANK as int + 1),
                link_order(orders@, MAX_RANK as int + 1).len() as int,
            ) {
                Ok(book) => r is Ok && final(self)@ == (PerpModel { book, ..old(self)@ }),
                Err(e) => r == Err::<(), DexError>(spec_book_error(old(self).state.id, e))
                    && final(self)@ == old(self)@,
            },
    {
        match OrderBook::from_snapshot(orders) {
            Ok(book) => {
                self.book = book;
                Ok(())
            },
            Err(e) => Err(book_error(self.state.id, e)),
        }
    }

    /// Moves the open interest with a position whose long size has gone from
    /// `prev_size` to `new_size`. The contract is left as it was if the open
    /// interest would leave the range of the decimal type.
    pub fn update_open_interest(
        &mut self,
        instant: StateInstant,
        prev_size: Decimal,
        new_size: Decimal,
    ) -> (r: Result<(), DexError>)
        ensures
            final(self).book == old(self).book,
            match old(self)@.update_open_interest(instant, prev_size, new_size) {
                Ok(m) => r is Ok && final(self)@ == m,
                Err(e) => r == Err::<(), DexError>(e) && final(self)@ == old(self)@,
            },
    {
        let base = self.state.open_interest.saturating_sub(prev_size);
        match base.checked_add(new_size) {
            Some(open_interest) => {
                self.state.open_interest = open_interest;
                self.state.instant = instant;
                Ok(())
            },
            None => Err(DexError::NumericOverflow),
        }
    }

    /// The end-of-block expiry step: brings every order up to `instant` that
    /// this makes expired, and hands those orders back by ascending ID.
    pub fn expire_orders(&mut self, instant: StateInstant) -> (r: Vec<Order>)
        requires
            old(self).wf(),
        ensures
            final(self).wf(),
            final(self)@ == old(self)@.expire(instant),
            r@ == old(self)@.book.expiring(instant, 65536),
    {
        self.book.expire_orders(instant)
    }

    /// A copy of the contract.
    pub fn duplicate(&self) -> (r: Perpetual)
        ensures
            r@ == self@,
            r.wf() == self.wf(),
    {
        Perpetual {
            state: self.state,
            name: self.name.clone(),
            symbol: self.symbol.clone(),
            book: self.book.duplicate(),
        }
    }
}

} // verus!
