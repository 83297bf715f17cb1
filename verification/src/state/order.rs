//! Active orders.

use vstd::prelude::*;

use crate::error::DexError;
use crate::num::{Converter, Decimal};
use crate::types::event::OrderContext;
use crate::types::order::{OrderSide, OrderType};
use crate::types::{AccountId, OrderId, RequestId, StateInstant};

verus! {

/// Error creating an [`Order`] from exchange data.
#[derive(Debug, Clone, Copy, PartialEq, Eq, Structural)]
pub enum OrderParseError {
    /// Order has invalid ID 0, which the exchange reserves for "no order".
    ZeroOrderId,
    /// The order type is none of the four the exchange knows.
    UnknownOrderType,
    /// A quantity of the order leaves the range of the decimal type.
    NumericOverflow,
}

/// An order as the exchange stores it, in its own integers.
#[derive(Debug, Clone, Copy, PartialEq, Eq, Structural)]
pub struct SnapshotOrder {
    pub order_id: u16,
    /// The order before this one in its price level's queue; zero for none.
    pub prev_order_id: u16,
    /// The order after this one in its price level's queue; zero for none.
    pub next_order_id: u16,
    pub order_type: u8,
    pub account_id: AccountId,
    /// Price as an offset from the perpetual's base price.
    pub price_ons: u128,
    pub lot_lns: u128,
    pub expiry_block: u64,
    pub leverage_hdths: u128,
}

/// Active order in the perpetual contract order book.
///
/// The exchange's book holds at most 2^16-1 orders and reuses their IDs
/// freely, even within the execution of a single order request: a taker order
/// that matches a maker order in full and is then placed may get the ID that
/// the maker order has just vacated. The mapping between orders and IDs holds
/// for one point in time only.
///
/// The exchange stores nothing that a client provides with an order, but each
/// order request emits its request ID, which is kept with the order as
/// [`Order::request_id`] and, for the request that placed it, as
/// [`Order::client_order_id`]. Both are known from events only, not from a
/// snapshot.
#[derive(Clone, Copy, Debug, PartialEq, Eq, Structural)]
pub struct Order {
    pub instant: StateInstant,
    pub request_id: Option<RequestId>,
    pub client_order_id: Option<RequestId>,
    pub order_id: OrderId,
    pub order_type: OrderType,
    pub account_id: AccountId,
    pub price: Decimal,
    pub size: Decimal,
    pub placed_size: Option<Decimal>,
    pub expiry_block: u64,
    pub leverage: Decimal,
    pub post_only: Option<bool>,
    pub fill_or_kill: Option<bool>,
    pub immediate_or_cancel: Option<bool>,
    /// Queue links as the exchange stored them when the snapshot was taken.
    pub prev_order_id: Option<OrderId>,
    pub next_order_id: Option<OrderId>,
}

/// The order id that `raw` stands for: none for zero.
pub open spec fn spec_link(raw: u16) -> Option<OrderId> {
    if raw == 0 {
        None
    } else {
        Some(raw)
    }
}

/// The order id that `raw` stands for: none for zero.
#[verifier::when_used_as_spec(spec_link)]
pub fn link(raw: u16) -> (r: Option<OrderId>)
    ensures
        r == spec_link(raw),
{
    if raw == 0 {
        None
    } else {
        Some(raw)
    }
}

impl Order {
    /// No more is left of the order than was placed, as far as what was
    /// placed is known.
    pub open spec fn sized(&self) -> bool {
        self.placed_size matches Some(placed) ==> self.size.units <= placed.units
    }

    /// The ID names an order, and no more is left of the order than was
    /// placed.
    pub open spec fn wf(&self) -> bool {
        &&& self.order_id != 0
        &&& self.sized()
    }

    /// The side of the book the order rests on.
    pub open spec fn spec_side(&self) -> OrderSide {
        self.order_type.spec_side()
    }

    /// Whether the order's last block has passed, as far as the order has
    /// been brought up to date.
    pub open spec fn spec_is_expired(&self) -> bool {
        self.expiry_block != 0 && self.expiry_block <= self.instant.block_number
    }

    /// What [`Order::from_snapshot`] returns for an order that the exchange
    /// stores.
    pub open spec fn spec_from_snapshot(
        instant: StateInstant,
        order: SnapshotOrder,
        base_price: Decimal,
        price_converter: Converter,
        size_converter: Converter,
        leverage_converter: Converter,
    ) -> Result<Order, OrderParseError> {
        let offset = price_converter.units_of(order.price_ons as nat);
        let size = size_converter.units_of(order.lot_lns as nat);
        let leverage = leverage_converter.units_of(order.leverage_hdths as nat);
        if order.order_id == 0 {
            Err(OrderParseError::ZeroOrderId)
        } else if OrderType::spec_from_u8(order.order_type) is None {
            Err(OrderParseError::UnknownOrderType)
        } else if offset > u128::MAX || base_price.units + offset > u128::MAX || size > u128::MAX
            || leverage > u128::MAX {
            Err(OrderParseError::NumericOverflow)
        } else {
            Ok(
                Order {
                    instant,
                    request_id: None,
                    client_order_id: None,
                    order_id: order.order_id,
                    order_type: OrderType::spec_from_u8(order.order_type).unwrap(),
                    account_id: order.account_id,
                    price: Decimal { units: (base_price.units + offset) as u128 },
                    size: Decimal { units: size as u128 },
                    placed_size: None,
                    expiry_block: order.expiry_block,
                    leverage: Decimal { units: leverage as u128 },
                    post_only: None,
                    fill_or_kill: None,
                    immediate_or_cancel: None,
                    prev_order_id: spec_link(order.prev_order_id),
                    next_order_id: spec_link(order.next_order_id),
                },
            )
        }
    }

    /// The order that the exchange stores as `order`: its price is the
    /// perpetual's base price plus the stored offset, and every quantity is
    /// converted at its scale. An ID of zero is rejected.
    pub fn from_snapshot(
        instant: StateInstant,
        order: SnapshotOrder,
        base_price: Decimal,
        price_converter: Converter,
        size_converter: Converter,
        leverage_converter: Converter,
    ) -> (r: Result<Order, OrderParseError>)
        ensures
            r == Order::spec_from_snapshot(
                instant,
                order,
                base_price,
                price_converter,
                size_converter,
                leverage_converter,
            ),
            r matches Ok(o) ==> o.wf(),
    {
        if order.order_id == 0 {
            return Err(OrderParseError::ZeroOrderId);
        }
        let order_type = match OrderType::from_u8(order.order_type) {
            Some(t) => t,
            None => {
                return Err(OrderParseError::UnknownOrderType);
            },
        };
        let offset = match price_converter.from_unsigned(order.price_ons) {
            Some(d) => d,
            None => {
                return Err(OrderParseError::NumericOverflow);
            },
        };
        let price = match base_price.checked_add(offset) {
            Some(d) => d,
            None => {
                return Err(OrderParseError::NumericOverflow);
            },
        };
        let size = match size_converter.from_unsigned(order.lot_lns) {
            Some(d) => d,
            None => {
                return Err(OrderParseError::NumericOverflow);
            },
        };
        let leverage = match leverage_converter.from_unsigned(order.leverage_hdths) {
            Some(d) => d,
            None => {
                return Err(OrderParseError::NumericOverflow);
            },
        };
        Ok(
            Order {
                instant,
                request_id: None,
                client_order_id: None,
                order_id: order.order_id,
                order_type,
                account_id: order.account_id,
                price,
                size,
                placed_size: None,
                expiry_block: order.expiry_block,
                leverage,
                post_only: None,
                fill_or_kill: None,
                immediate_or_cancel: None,
                prev_order_id: link(order.prev_order_id),
                next_order_id: link(order.next_order_id),
            },
        )
    }

    /// What [`Order::placed`] returns.
    pub open spec fn spec_placed(
        instant: StateInstant,
        ctx: OrderContext,
        order_id: u16,
        size: Decimal,
        price_converter: Converter,
        leverage_converter: Converter,
    ) -> Result<Order, DexError> {
        let price = price_converter.units_of(ctx.price_pns as nat);
        let leverage = leverage_converter.units_of(ctx.leverage_hdths as nat);
        if order_id == 0 {
            Err(DexError::InvalidOrderId)
        } else if ctx.spec_order_type() is None {
            Err(DexError::InvalidEvent)
        } else if price > u128::MAX || leverage > u128::MAX {
            Err(DexError::NumericOverflow)
        } else {
            Ok(
                Order {
                    instant,
                    request_id: Some(ctx.request_id),
                    client_order_id: Some(ctx.request_id),
                    order_id,
                    order_type: ctx.spec_order_type().unwrap(),
                    account_id: ctx.account_id,
                    price: Decimal { units: price as u128 },
                    size,
                    placed_size: Some(size),
                    expiry_block: ctx.expiry_block,
                    leverage: Decimal { units: leverage as u128 },
                    post_only: Some(ctx.post_only),
                    fill_or_kill: Some(ctx.fill_or_kill),
                    immediate_or_cancel: Some(ctx.immediate_or_cancel),
                    prev_order_id: None,
                    next_order_id: None,
                },
            )
        }
    }

    /// The order that the request `ctx` has placed under `order_id` with
    /// `size` left. The request's ID becomes the order's client order ID. An
    /// ID of zero is rejected, and so is a request that places no order.
    pub fn placed(
        instant: StateInstant,
        ctx: &OrderContext,
        order_id: u16,
        size: Decimal,
        price_converter: Converter,
        leverage_converter: Converter,
    ) -> (r: Result<Order, DexError>)
        ensures
            r == Order::spec_placed(
                instant,
                *ctx,
                order_id,
                size,
                price_converter,
                leverage_converter,
            ),
            r matches Ok(o) ==> o.wf(),
    {
        if order_id == 0 {
            return Err(DexError::InvalidOrderId);
        }
        let order_type = match ctx.order_type() {
            Some(t) => t,
            None => {
                return Err(DexError::InvalidEvent);
            },
        };
        let price = match price_converter.from_unsigned(ctx.price_pns) {
            Some(d) => d,
            None => {
                return Err(DexError::NumericOverflow);
            },
        };
        let leverage = match leverage_converter.from_unsigned(ctx.leverage_hdths) {
            Some(d) => d,
            None => {
                return Err(DexError::NumericOverflow);
            },
        };
        Ok(
            Order {
                instant,
                request_id: Some(ctx.request_id),
                client_order_id: Some(ctx.request_id),
                order_id,
                order_type,
                account_id: ctx.account_id,
                price,
                size,
                placed_size: Some(size),
                expiry_block: ctx.expiry_block,
                leverage,
                post_only: Some(ctx.post_only),
                fill_or_kill: Some(ctx.fill_or_kill),
                immediate_or_cancel: Some(ctx.immediate_or_cancel),
                prev_order_id: None,
                next_order_id: None,
            },
        )
    }

    /// What [`Order::updated`] returns.
    pub open spec fn spec_updated(
        &self,
        instant: StateInstant,
        ctx: Option<OrderContext>,
        price: Option<Decimal>,
        size: Option<Decimal>,
        placed_size: Option<Decimal>,
        expiry_block: Option<u64>,
    ) -> Order {
        Order {
            instant,
            request_id: match ctx {
                Some(c) => Some(c.request_id),
                None => None,
            },
            price: match price {
                Some(p) => p,
                None => self.price,
            },
            size: match size {
                Some(s) => s,
                None => self.size,
            },
            placed_size: match placed_size {
                Some(p) => Some(p),
                None => self.placed_size,
            },
            expiry_block: match expiry_block {
                Some(e) => e,
                None => self.expiry_block,
            },
            ..*self
        }
    }

    /// The order after the request `ctx` has changed it at `instant`: every
    /// given value replaces the order's, the request's ID becomes the order's
    /// request ID, and the rest, the client order ID among it, is kept.
    pub fn updated(
        &self,
        instant: StateInstant,
        ctx: &Option<OrderContext>,
        price: Option<Decimal>,
        size: Option<Decimal>,
        placed_size: Option<Decimal>,
        expiry_block: Option<u64>,
    ) -> (r: Order)
        ensures
            r == self.spec_updated(instant, *ctx, price, size, placed_size, expiry_block),
    {
        Order {
            instant,
            request_id: match ctx {
                Some(c) => Some(c.request_id),
                None => None,
            },
            client_order_id: self.client_order_id,
            order_id: self.order_id,
            order_type: self.order_type,
            account_id: self.account_id,
            price: match price {
                Some(p) => p,
                None => self.price,
            },
            size: match size {
                Some(s) => s,
                None => self.size,
            },
            placed_size: match placed_size {
                Some(p) => Some(p),
                None => self.placed_size,
            },
            expiry_block: match expiry_block {
                Some(e) => e,
                None => self.expiry_block,
            },
            leverage: self.leverage,
            post_only: self.post_only,
            fill_or_kill: self.fill_or_kill,
            immediate_or_cancel: self.immediate_or_cancel,
            prev_order_id: self.prev_order_id,
            next_order_id: self.next_order_id,
        }
    }

    /// Whether the order turns expired when it is brought up to `instant`.
    pub open spec fn expires_at(&self, instant: StateInstant) -> bool {
        self.expiry_block != 0 && self.expiry_block <= instant.block_number
            && !self.spec_is_expired()
    }

    /// Brings the order up to `instant` if that makes it expired, and says
    /// whether it did. An order that does not expire at `instant` is left as
    /// it is.
    pub fn update_if_expired(&mut self, instant: StateInstant) -> (r: bool)
        ensures
            r == old(self).expires_at(instant),
            r ==> *final(self) == (Order { instant, ..*old(self) }) && final(self).spec_is_expired(),
            !r ==> *final(self) == *old(self),
    {
        if self.expiry_block != 0 && self.expiry_block <= instant.block_number
            && !self.is_expired() {
            self.instant = instant;
            true
        } else {
            false
        }
    }

    /// An order without ID history, for tests: ID 1, account 0, block 0.
    pub fn for_testing(order_type: OrderType, price: Decimal, size: Decimal) -> (r: Order)
        ensures
            r == Order::spec_for_l3_testing(order_type, price, size, 0, 1, 0),
            r.wf(),
    {
        Order::for_l3_testing(order_type, price, size, 0, 1, 0)
    }

    /// What [`Order::for_l3_testing`] returns.
    pub open spec fn spec_for_l3_testing(
        order_type: OrderType,
        price: Decimal,
        size: Decimal,
        block_number: u64,
        order_id: OrderId,
        account_id: AccountId,
    ) -> Order {
        Order {
            instant: StateInstant { block_number, block_timestamp: 0 },
            request_id: None,
            client_order_id: None,
            order_id,
            order_type,
            account_id,
            price,
            size,
            placed_size: Some(size),
            expiry_block: 0,
            leverage: Decimal { units: 0 },
            post_only: None,
            fill_or_kill: None,
            immediate_or_cancel: None,
            prev_order_id: None,
            next_order_id: None,
        }
    }

    /// An order that never expires, placed in full at the given block.
    pub fn for_l3_testing(
        order_type: OrderType,
        price: Decimal,
        size: Decimal,
        block_number: u64,
        order_id: OrderId,
        account_id: AccountId,
    ) -> (r: Order)
        ensures
            r == Order::spec_for_l3_testing(
                order_type,
                price,
                size,
                block_number,
                order_id,
                account_id,
            ),
            order_id != 0 ==> r.wf(),
    {
        Order {
            instant: StateInstant::new(block_number, 0),
            request_id: None,
            client_order_id: None,
            order_id,
            order_type,
            account_id,
            price,
            size,
            placed_size: Some(size),
            expiry_block: 0,
            leverage: Decimal::zero(),
            post_only: None,
            fill_or_kill: None,
            immediate_or_cancel: None,
            prev_order_id: None,
            next_order_id: None,
        }
    }

    /// As [`Order::for_l3_testing`], with the queue links that a snapshot
    /// would carry.
    #[allow(clippy::too_many_arguments)]
    pub fn for_l3_testing_with_links(
        order_type: OrderType,
        price: Decimal,
        size: Decimal,
        block_number: u64,
        order_id: OrderId,
        account_id: AccountId,
        prev_order_id: Option<OrderId>,
        next_order_id: Option<OrderId>,
    ) -> (r: Order)
        ensures
            r == (Order {
                prev_order_id,
                next_order_id,
                ..Order::spec_for_l3_testing(
                    order_type,
                    price,
                    size,
                    block_number,
                    order_id,
                    account_id,
                )
            }),
            order_id != 0 ==> r.wf(),
    {
        let base = Order::for_l3_testing(
            order_type,
            price,
            size,
            block_number,
            order_id,
            account_id,
        );
        Order { prev_order_id, next_order_id, ..base }
    }

    /// A copy with another size left.
    pub fn with_size(&self, size: Decimal) -> (r: Order)
        ensures
            r == (Order { size, ..*self }),
    {
        Order { size, ..*self }
    }

    /// A copy with another price.
    pub fn with_price(&self, price: Decimal) -> (r: Order)
        ensures
            r == (Order { price, ..*self }),
    {
        Order { price, ..*self }
    }

    /// A copy with another expiry block.
    pub fn with_expiry_block(&self, expiry_block: u64) -> (r: Order)
        ensures
            r == (Order { expiry_block, ..*self }),
    {
        Order { expiry_block, ..*self }
    }

    /// A copy with other snapshot queue links.
    pub fn with_links(&self, prev_order_id: Option<OrderId>, next_order_id: Option<OrderId>) -> (r:
        Order)
        ensures
            r == (Order { prev_order_id, next_order_id, ..*self }),
    {
        Order { prev_order_id, next_order_id, ..*self }
    }

    /// A copy with another client order ID.
    pub fn with_client_order_id(&self, client_order_id: RequestId) -> (r: Order)
        ensures
            r == (Order { client_order_id: Some(client_order_id), ..*self }),
    {
        Order { client_order_id: Some(client_order_id), ..*self }
    }

    /// Instant the order state is consistent with or was last updated at.
    pub fn instant(&self) -> (r: StateInstant)
        ensures
            r == self.instant,
    {
        self.instant
    }

    /// ID of the request this order was posted or updated by.
    /// Available only from real-time events, not from the initial snapshot.
    pub fn request_id(&self) -> (r: Option<RequestId>)
        ensures
            r == self.request_id,
    {
        self.request_id
    }

    /// Client order ID = ID of the request this order was placed by.
    /// Available only from real-time events, not from the initial snapshot.
    pub fn client_order_id(&self) -> (r: Option<RequestId>)
        ensures
            r == self.client_order_id,
    {
        self.client_order_id
    }

    /// ID of the order in the book.
    pub fn order_id(&self) -> (r: OrderId)
        ensures
            r == self.order_id,
    {
        self.order_id
    }

    /// Type of the order.
    pub fn order_type(&self) -> (r: OrderType)
        ensures
            r == self.order_type,
    {
        self.order_type
    }

    /// Side of the book the order rests on.
    #[verifier::when_used_as_spec(spec_side)]
    pub fn side(&self) -> (r: OrderSide)
        ensures
            r == self.spec_side(),
    {
        self.order_type.side()
    }

    /// ID of the account issued the order.
    pub fn account_id(&self) -> (r: AccountId)
        ensures
            r == self.account_id,
    {
        self.account_id
    }

    /// Limit price of the order.
    pub fn price(&self) -> (r: Decimal)
        ensures
            r == self.price,
    {
        self.price
    }

    /// Current size of the order.
    pub fn size(&self) -> (r: Decimal)
        ensures
            r == self.size,
    {
        self.size
    }

    /// Size of the order that was placed.
    /// Available only from real-time events, not from the initial snapshot.
    pub fn placed_size(&self) -> (r: Option<Decimal>)
        ensures
            r == self.placed_size,
    {
        self.placed_size
    }

    /// Filled size of the order: what was placed less what is left.
    /// Available only from real-time events, not from the initial snapshot.
    pub fn filled_size(&self) -> (r: Option<Decimal>)
        requires
            self.sized(),
        ensures
            match self.placed_size {
                Some(placed) => r == Some(
                    Decimal { units: (placed.units - self.size.units) as u128 },
                ),
                None => r is None,
            },
    {
        match self.placed_size {
            Some(placed) => Some(placed.saturating_sub(self.size)),
            None => None,
        }
    }

    /// Expiry block of the order, zero if was not specified.
    pub fn expiry_block(&self) -> (r: u64)
        ensures
            r == self.expiry_block,
    {
        self.expiry_block
    }

    /// Check if the order is expired.
    /// NOTE: Valid only after the end of expiry block processing.
    #[verifier::when_used_as_spec(spec_is_expired)]
    pub fn is_expired(&self) -> (r: bool)
        ensures
            r == self.spec_is_expired(),
    {
        self.expiry_block != 0 && self.expiry_block <= self.instant.block_number
    }

    /// Leverage of the order.
    pub fn leverage(&self) -> (r: Decimal)
        ensures
            r == self.leverage,
    {
        self.leverage
    }

    /// Post-only flag.
    /// Available only from real-time events, not from the initial snapshot.
    pub fn post_only(&self) -> (r: Option<bool>)
        ensures
            r == self.post_only,
    {
        self.post_only
    }

    /// Fill-or-kill flag.
    /// Available only from real-time events, not from the initial snapshot.
    pub fn fill_or_kill(&self) -> (r: Option<bool>)
        ensures
            r == self.fill_or_kill,
    {
        self.fill_or_kill
    }

    /// Immediate-or-cancel flag.
    /// Available only from real-time events, not from the initial snapshot.
    pub fn immediate_or_cancel(&self) -> (r: Option<bool>)
        ensures
            r == self.immediate_or_cancel,
    {
        self.immediate_or_cancel
    }

    /// Previous order ID in the FIFO queue at this price level, as the
    /// snapshot gave it.
    pub fn prev_order_id(&self) -> (r: Option<OrderId>)
        ensures
            r == self.prev_order_id,
    {
        self.prev_order_id
    }

    /// Next order ID in the FIFO queue at this price level, as the snapshot
    /// gave it.
    pub fn next_order_id(&self) -> (r: Option<OrderId>)
        ensures
            r == self.next_order_id,
    {
        self.next_order_id
    }
}

/// An order without an expiry block is not expired, at whatever instant it
/// stands, and bringing it up to a later instant does not make it so.
pub proof fn lemma_no_expiry_never_expires(order: Order, instant: StateInstant)
    requires
        order.expiry_block == 0,
    ensures
        !order.spec_is_expired(),
        !order.expires_at(instant),
        !(Order { instant, ..order }).spec_is_expired(),
{
}

} // verus!
