//! Events: what the exchange emits, decoded, and what the engine derives.

use vstd::prelude::*;

use crate::num::Decimal;
use crate::state::order::Order;
use crate::types::order::{OrderSide, OrderType};
use crate::types::request::RequestType;
use crate::types::trade::Trade;
use crate::types::{AccountId, Address, PerpetualId, RequestId, StateInstant, TxHash};

verus! {

/// An event together with the place in the block it comes from.
#[derive(Clone, Debug)]
pub struct EventContext<T> {
    pub tx_hash: TxHash,
    pub tx_index: u64,
    pub log_index: u64,
    pub event: T,
}

impl<T> EventContext<T> {
    pub fn new(tx_hash: TxHash, tx_index: u64, log_index: u64, event: T) -> (r: Self)
        ensures
            r.tx_hash == tx_hash,
            r.tx_index == tx_index,
            r.log_index == log_index,
            r.event == event,
    {
        EventContext { tx_hash, tx_index, log_index, event }
    }

    pub fn tx_hash(&self) -> (r: TxHash)
        ensures
            r == self.tx_hash,
    {
        self.tx_hash
    }

    pub fn tx_index(&self) -> (r: u64)
        ensures
            r == self.tx_index,
    {
        self.tx_index
    }

    pub fn log_index(&self) -> (r: u64)
        ensures
            r == self.log_index,
    {
        self.log_index
    }

    pub fn event(&self) -> (r: &T)
        ensures
            *r == self.event,
    {
        &self.event
    }

    /// Another event at the same place in the block.
    pub fn pass<U>(&self, event: U) -> (r: EventContext<U>)
        ensures
            r.tx_hash == self.tx_hash,
            r.tx_index == self.tx_index,
            r.log_index == self.log_index,
            r.event == event,
    {
        EventContext {
            tx_hash: self.tx_hash,
            tx_index: self.tx_index,
            log_index: self.log_index,
            event,
        }
    }
}

/// The events of one block, in the order the block holds them.
#[derive(Clone, Debug)]
pub struct BlockEvents<T> {
    pub instant: StateInstant,
    pub events: Vec<T>,
}

impl<T> BlockEvents<T> {
    pub fn new(instant: StateInstant, events: Vec<T>) -> (r: Self)
        ensures
            r.instant == instant,
            r.events == events,
    {
        BlockEvents { instant, events }
    }

    pub fn instant(&self) -> (r: StateInstant)
        ensures
            r == self.instant,
    {
        self.instant
    }

    pub fn events(&self) -> (r: &Vec<T>)
        ensures
            *r == self.events,
    {
        &self.events
    }
}

/// An event of the exchange with its place in the block.
pub type RawEvent = EventContext<ExchangeEvent>;

/// The events of the exchange in one block.
pub type RawBlockEvents = BlockEvents<RawEvent>;

/// The state events that one event of the exchange gave rise to, with that
/// event's place in the block.
pub type StateEvents = EventContext<Vec<StateEvent>>;

/// The state events of one block, grouped by the events of the exchange
/// that gave rise to them.
pub type StateBlockEvents = BlockEvents<StateEvents>;

/// An event of the exchange contract, decoded into plain values. Prices,
/// sizes and amounts are the integers the contract stores: `pns` counts units
/// of the perpetual's price scale, `lns` of its size scale, `cns` of the
/// collateral scale, `hdths` hundredths.
#[derive(Clone, Copy, Debug, PartialEq, Eq, Structural)]
pub enum ExchangeEvent {
    AccountCreated { account_id: AccountId, address: Address },
    AccountFrozen { account_id: AccountId, frozen: bool },
    BalanceChanged { account_id: AccountId, balance_cns: u128 },
    /// Opens an order request; the events up to the next
    /// `OrderBatchCompleted` of the transaction belong to it.
    OrderRequest {
        account_id: AccountId,
        request_id: RequestId,
        perpetual_id: PerpetualId,
        request_type: u8,
        order_id: u16,
        price_pns: u128,
        lot_lns: u128,
        expiry_block: u64,
        leverage_hdths: u128,
        post_only: bool,
        fill_or_kill: bool,
        immediate_or_cancel: bool,
    },
    /// The request's order, or what is left of it, rests in the book.
    OrderPlaced { order_id: u16, lot_lns: u128, locked_balance_cns: u128 },
    /// A resting order has a new price, size and expiry.
    OrderChanged {
        order_id: u16,
        price_pns: u128,
        lot_lns: u128,
        expiry_block: u64,
        locked_balance_cns: u128,
    },
    /// A resting order has left the book unfilled.
    OrderCancelled { order_id: u16, locked_balance_cns: u128 },
    /// A resting order was matched by the current request.
    MakerOrderFilled {
        perpetual_id: PerpetualId,
        account_id: AccountId,
        order_id: u16,
        price_pns: u128,
        lot_lns: u128,
        fee_cns: u128,
    },
    /// The current request was matched; closes the maker fills before it.
    TakerOrderFilled { fee_cns: u128 },
    /// Closes the current order request.
    OrderBatchCompleted,
    MarkPriceUpdated { perpetual_id: PerpetualId, price_pns: u128 },
    OraclePriceUpdated { perpetual_id: PerpetualId, price_pns: u128 },
    LastPriceUpdated { perpetual_id: PerpetualId, price_pns: u128 },
    PerpetualPaused { perpetual_id: PerpetualId, paused: bool },
    MakerFeeChanged { perpetual_id: PerpetualId, fee: u128 },
    TakerFeeChanged { perpetual_id: PerpetualId, fee: u128 },
    InitialMarginChanged { perpetual_id: PerpetualId, margin_hdths: u128 },
    MaintenanceMarginChanged { perpetual_id: PerpetualId, margin_hdths: u128 },
    PriceMaxAgeChanged { perpetual_id: PerpetualId, max_age: u64 },
    ExchangeHalted,
    ExchangeResumed,
    /// An event the engine does not follow.
    Other,
}

/// The order request that the events of a transaction currently belong to.
#[derive(Clone, Copy, Debug, PartialEq, Eq, Structural)]
pub struct OrderContext {
    pub account_id: AccountId,
    pub request_id: RequestId,
    pub perpetual_id: PerpetualId,
    pub request_type: RequestType,
    pub order_id: u16,
    pub price_pns: u128,
    pub lot_lns: u128,
    pub expiry_block: u64,
    pub leverage_hdths: u128,
    pub post_only: bool,
    pub fill_or_kill: bool,
    pub immediate_or_cancel: bool,
}

impl OrderContext {
    /// The side the request trades on, if it trades.
    pub open spec fn spec_side(&self) -> Option<OrderSide> {
        self.request_type.spec_try_side()
    }

    /// The side the request trades on, if it trades.
    #[verifier::when_used_as_spec(spec_side)]
    pub fn side(&self) -> (r: Option<OrderSide>)
        ensures
            r == self.spec_side(),
    {
        self.request_type.try_side()
    }

    /// The type of the order the request places, if it places one.
    pub open spec fn spec_order_type(&self) -> Option<OrderType> {
        self.request_type.spec_order_type()
    }

    /// The type of the order the request places, if it places one.
    #[verifier::when_used_as_spec(spec_order_type)]
    pub fn order_type(&self) -> (r: Option<OrderType>)
        ensures
            r == self.spec_order_type(),
    {
        self.request_type.order_type()
    }
}

/// An order after something happened to it, with the request that caused it.
#[derive(Clone, Copy, Debug, PartialEq, Eq, Structural)]
pub struct OrderEvent {
    pub perpetual_id: PerpetualId,
    pub request_id: Option<RequestId>,
    pub order: Order,
}

/// A change of the replica's state.
#[derive(Clone, Debug)]
pub enum StateEvent {
    AccountCreated { account_id: AccountId, address: Address },
    AccountFrozen { account_id: AccountId, frozen: bool },
    AccountBalanceChanged { account_id: AccountId, balance: Decimal },
    OrderPlaced(OrderEvent),
    OrderChanged(OrderEvent),
    OrderCancelled(OrderEvent),
    OrderExpired(OrderEvent),
    /// A resting order was filled in part or in whole; `order` is the order
    /// after the fill.
    MakerFilled { order: OrderEvent, price: Decimal, size: Decimal, fee: Decimal },
    TakerFilled {
        perpetual_id: PerpetualId,
        account_id: AccountId,
        request_id: Option<RequestId>,
        side: OrderSide,
        fee: Decimal,
    },
    Trade(Trade),
    MarkPriceUpdated { perpetual_id: PerpetualId, price: Decimal },
    OraclePriceUpdated { perpetual_id: PerpetualId, price: Decimal },
    LastPriceUpdated { perpetual_id: PerpetualId, price: Decimal },
    PerpetualPaused { perpetual_id: PerpetualId, paused: bool },
    MakerFeeChanged { perpetual_id: PerpetualId, fee: Decimal },
    TakerFeeChanged { perpetual_id: PerpetualId, fee: Decimal },
    InitialMarginChanged { perpetual_id: PerpetualId, margin: Decimal },
    MaintenanceMarginChanged { perpetual_id: PerpetualId, margin: Decimal },
    PriceMaxAgeChanged { perpetual_id: PerpetualId, max_age: u64 },
}

impl StateEvent {
    /// The order this event is about, if it is about one.
    pub open spec fn spec_as_order_event(&self) -> Option<OrderEvent> {
        match *self {
            StateEvent::OrderPlaced(e) => Some(e),
            StateEvent::OrderChanged(e) => Some(e),
            StateEvent::OrderCancelled(e) => Some(e),
            StateEvent::OrderExpired(e) => Some(e),
            StateEvent::MakerFilled { order, .. } => Some(order),
            _ => None,
        }
    }

    /// The order this event is about, if it is about one.
    pub fn as_order_event(&self) -> (r: Option<OrderEvent>)
        ensures
            r == self.spec_as_order_event(),
    {
        match self {
            StateEvent::OrderPlaced(e) => Some(*e),
            StateEvent::OrderChanged(e) => Some(*e),
            StateEvent::OrderCancelled(e) => Some(*e),
            StateEvent::OrderExpired(e) => Some(*e),
            StateEvent::MakerFilled { order, .. } => Some(*order),
            _ => None,
        }
    }

    /// The trade this event reports, if it reports one.
    pub fn as_trade(&self) -> (r: Option<&Trade>)
        ensures
            match *self {
                StateEvent::Trade(t) => r == Some(&t),
                _ => r is None,
            },
    {
        match self {
            StateEvent::Trade(t) => Some(t),
            _ => None,
        }
    }
}

} // verus!
