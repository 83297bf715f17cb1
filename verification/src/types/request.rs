//! Order requests as a client states them and as the exchange takes them.

use vstd::prelude::*;

use crate::error::DexError;
use crate::num::{Converter, Decimal};
use crate::types::order::{OrderSide, OrderType};
use crate::types::{OrderId, PerpetualId, RequestId};

verus! {

/// What an order request asks for.
#[derive(Clone, Copy, Debug, PartialEq, Eq, Hash, Structural)]
pub enum RequestType {
    OpenLong,
    OpenShort,
    CloseLong,
    CloseShort,
    Cancel,
    Change,
}

impl RequestType {
    /// The request type the exchange encodes as `value`, if there is one.
    pub open spec fn spec_from_u8(value: u8) -> Option<RequestType> {
        if value == 0 {
            Some(RequestType::OpenLong)
        } else if value == 1 {
            Some(RequestType::OpenShort)
        } else if value == 2 {
            Some(RequestType::CloseLong)
        } else if value == 3 {
            Some(RequestType::CloseShort)
        } else if value == 4 {
            Some(RequestType::Cancel)
        } else if value == 5 {
            Some(RequestType::Change)
        } else {
            None
        }
    }

    /// The request type the exchange encodes as `value`, if there is one.
    #[verifier::when_used_as_spec(spec_from_u8)]
    pub fn from_u8(value: u8) -> (r: Option<RequestType>)
        ensures
            r == RequestType::spec_from_u8(value),
    {
        match value {
            0 => Some(RequestType::OpenLong),
            1 => Some(RequestType::OpenShort),
            2 => Some(RequestType::CloseLong),
            3 => Some(RequestType::CloseShort),
            4 => Some(RequestType::Cancel),
            5 => Some(RequestType::Change),
            _ => None,
        }
    }

    /// The number the exchange encodes this request type as.
    pub open spec fn spec_to_u8(&self) -> u8 {
        match self {
            RequestType::OpenLong => 0,
            RequestType::OpenShort => 1,
            RequestType::CloseLong => 2,
            RequestType::CloseShort => 3,
            RequestType::Cancel => 4,
            RequestType::Change => 5,
        }
    }

    /// The number the exchange encodes this request type as.
    #[verifier::when_used_as_spec(spec_to_u8)]
    pub fn to_u8(&self) -> (r: u8)
        ensures
            r == self.spec_to_u8(),
            RequestType::spec_from_u8(r) == Some(*self),
    {
        match self {
            RequestType::OpenLong => 0,
            RequestType::OpenShort => 1,
            RequestType::CloseLong => 2,
            RequestType::CloseShort => 3,
            RequestType::Cancel => 4,
            RequestType::Change => 5,
        }
    }

    /// The type of the order the request places, if it places one.
    pub open spec fn spec_order_type(&self) -> Option<OrderType> {
        match self {
            RequestType::OpenLong => Some(OrderType::OpenLong),
            RequestType::OpenShort => Some(OrderType::OpenShort),
            RequestType::CloseLong => Some(OrderType::CloseLong),
            RequestType::CloseShort => Some(OrderType::CloseShort),
            RequestType::Cancel => None,
            RequestType::Change => None,
        }
    }

    /// The type of the order the request places, if it places one.
    #[verifier::when_used_as_spec(spec_order_type)]
    pub fn order_type(&self) -> (r: Option<OrderType>)
        ensures
            r == self.spec_order_type(),
    {
        match self {
            RequestType::OpenLong => Some(OrderType::OpenLong),
            RequestType::OpenShort => Some(OrderType::OpenShort),
            RequestType::CloseLong => Some(OrderType::CloseLong),
            RequestType::CloseShort => Some(OrderType::CloseShort),
            RequestType::Cancel => None,
            RequestType::Change => None,
        }
    }

    /// The side the request trades on, if it trades.
    pub open spec fn spec_try_side(&self) -> Option<OrderSide> {
        match self.spec_order_type() {
            Some(t) => Some(t.spec_side()),
            None => None,
        }
    }

    /// The side the request trades on, if it trades.
    #[verifier::when_used_as_spec(spec_try_side)]
    pub fn try_side(&self) -> (r: Option<OrderSide>)
        ensures
            r == self.spec_try_side(),
    {
        match self.order_type() {
            Some(t) => Some(t.side()),
            None => None,
        }
    }
}

/// An order request in decimals, as a client states it.
#[derive(Clone, Copy, Debug, PartialEq, Eq, Structural)]
pub struct OrderRequest {
    pub request_id: RequestId,
    pub perpetual_id: PerpetualId,
    pub request_type: RequestType,
    /// The order to cancel or change; none for a new order.
    pub order_id: Option<OrderId>,
    pub price: Decimal,
    pub size: Decimal,
    /// The last block the order may rest in; none for an order that never
    /// expires.
    pub expiry_block: Option<u64>,
    pub post_only: bool,
    pub fill_or_kill: bool,
    pub immediate_or_cancel: bool,
    pub leverage: Decimal,
}

/// An order request in the integers the exchange takes.
#[derive(Clone, Copy, Debug, PartialEq, Eq, Structural)]
pub struct OrderDesc {
    pub request_id: RequestId,
    pub perpetual_id: PerpetualId,
    pub request_type: u8,
    /// Zero where the request names no order.
    pub order_id: u16,
    pub price_pns: u128,
    pub lot_lns: u128,
    /// Zero where the order never expires.
    pub expiry_block: u64,
    pub post_only: bool,
    pub fill_or_kill: bool,
    pub immediate_or_cancel: bool,
    pub leverage_hdths: u128,
}

impl OrderRequest {
    #[allow(clippy::too_many_arguments)]
    pub fn new(
        request_id: RequestId,
        perpetual_id: PerpetualId,
        request_type: RequestType,
        order_id: Option<OrderId>,
        price: Decimal,
        size: Decimal,
        expiry_block: Option<u64>,
        post_only: bool,
        fill_or_kill: bool,
        immediate_or_cancel: bool,
        leverage: Decimal,
    ) -> (r: OrderRequest)
        ensures
            r == (OrderRequest {
                request_id,
                perpetual_id,
                request_type,
                order_id,
                price,
                size,
                expiry_block,
                post_only,
                fill_or_kill,
                immediate_or_cancel,
                leverage,
            }),
    {
        OrderRequest {
            request_id,
            perpetual_id,
            request_type,
            order_id,
            price,
            size,
            expiry_block,
            post_only,
            fill_or_kill,
            immediate_or_cancel,
            leverage,
        }
    }

    /// Whether the three quantities of the request fit into 128 bits at the
    /// scales of the given converters.
    pub open spec fn convertible(
        &self,
        price_converter: Converter,
        size_converter: Converter,
        leverage_converter: Converter,
    ) -> bool {
        &&& price_converter.raw_of(self.price.units as nat) <= u128::MAX
        &&& size_converter.raw_of(self.size.units as nat) <= u128::MAX
        &&& leverage_converter.raw_of(self.leverage.units as nat) <= u128::MAX
    }

    /// The descriptor the exchange takes for this request: every quantity at
    /// the scale of its converter, rounded toward zero; a missing order id
    /// and a missing expiry block as zero.
    pub open spec fn spec_order_desc(
        &self,
        price_converter: Converter,
        size_converter: Converter,
        leverage_converter: Converter,
    ) -> OrderDesc {
        OrderDesc {
            request_id: self.request_id,
            perpetual_id: self.perpetual_id,
            request_type: self.request_type.spec_to_u8(),
            order_id: match self.order_id {
                Some(id) => id,
                None => 0,
            },
            price_pns: price_converter.raw_of(self.price.units as nat) as u128,
            lot_lns: size_converter.raw_of(self.size.units as nat) as u128,
            expiry_block: match self.expiry_block {
                Some(b) => b,
                None => 0,
            },
            post_only: self.post_only,
            fill_or_kill: self.fill_or_kill,
            immediate_or_cancel: self.immediate_or_cancel,
            leverage_hdths: leverage_converter.raw_of(self.leverage.units as nat) as u128,
        }
    }

    /// Turns the request into the descriptor the exchange takes. Fails
    /// with `NumericOverflow` exactly when a quantity does not fit.
    pub fn to_order_desc(
        &self,
        price_converter: Converter,
        size_converter: Converter,
        leverage_converter: Converter,
    ) -> (r: Result<OrderDesc, DexError>)
        ensures
            self.convertible(price_converter, size_converter, leverage_converter) ==> r == Ok::<
                OrderDesc,
                DexError,
            >(self.spec_order_desc(price_converter, size_converter, leverage_converter)),
            !self.convertible(price_converter, size_converter, leverage_converter) ==> r == Err::<
                OrderDesc,
                DexError,
            >(DexError::NumericOverflow),
    {
        let price_pns = match price_converter.to_unsigned(self.price) {
            Some(v) => v,
            None => { return Err(DexError::NumericOverflow); },
        };
        let lot_lns = match size_converter.to_unsigned(self.size) {
            Some(v) => v,
            None => { return Err(DexError::NumericOverflow); },
        };
        let leverage_hdths = match leverage_converter.to_unsigned(self.leverage) {
            Some(v) => v,
            None => { return Err(DexError::NumericOverflow); },
        };
        Ok(
            OrderDesc {
                request_id: self.request_id,
                perpetual_id: self.perpetual_id,
                request_type: self.request_type.to_u8(),
                order_id: match self.order_id {
                    Some(id) => id,
                    None => 0,
                },
                price_pns,
                lot_lns,
                expiry_block: match self.expiry_block {
                    Some(b) => b,
                    None => 0,
                },
                post_only: self.post_only,
                fill_or_kill: self.fill_or_kill,
                immediate_or_cancel: self.immediate_or_cancel,
                leverage_hdths,
            },
        )
    }
}

} // verus!
