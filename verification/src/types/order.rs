//! Order types and sides.

use vstd::prelude::*;

verus! {

/// Type of the placed order.
///
/// Bid order types:
/// * [`OrderType::OpenLong`] opens or increases a long position (or
///   decreases, closes or inverts a short one).
/// * [`OrderType::CloseShort`] only reduces an existing short position.
///
/// Ask order types:
/// * [`OrderType::OpenShort`] opens or increases a short position (or
///   decreases, closes or inverts a long one).
/// * [`OrderType::CloseLong`] only reduces an existing long position.
#[derive(Clone, Copy, Debug, Eq, PartialEq, Hash, Structural)]
pub enum OrderType {
    OpenLong,
    OpenShort,
    CloseLong,
    CloseShort,
}

/// Side of the order.
#[derive(Clone, Copy, Debug, PartialEq, Eq, Hash, Structural)]
pub enum OrderSide {
    Ask,
    Bid,
}

impl OrderType {
    /// The side of the book an order of this type rests on.
    pub open spec fn spec_side(&self) -> OrderSide {
        match self {
            OrderType::OpenLong | OrderType::CloseShort => OrderSide::Bid,
            OrderType::OpenShort | OrderType::CloseLong => OrderSide::Ask,
        }
    }

    /// The side of the book an order of this type rests on.
    #[verifier::when_used_as_spec(spec_side)]
    pub fn side(&self) -> (r: OrderSide)
        ensures
            r == self.spec_side(),
    {
        match self {
            OrderType::OpenLong | OrderType::CloseShort => OrderSide::Bid,
            OrderType::OpenShort | OrderType::CloseLong => OrderSide::Ask,
        }
    }

    /// The name of the order type: in full, or its two letters.
    pub fn name(&self, short: bool) -> (r: &'static str)
        ensures
            r@ == (match (*self, short) {
                (OrderType::OpenLong, true) => "OL"@,
                (OrderType::OpenShort, true) => "OS"@,
                (OrderType::CloseLong, true) => "CL"@,
                (OrderType::CloseShort, true) => "CS"@,
                (OrderType::OpenLong, false) => "Open Long"@,
                (OrderType::OpenShort, false) => "Open Short"@,
                (OrderType::CloseLong, false) => "Close Long"@,
                (OrderType::CloseShort, false) => "Close Short"@,
            }),
    {
        if short {
            match self {
                OrderType::OpenLong => "OL",
                OrderType::OpenShort => "OS",
                OrderType::CloseLong => "CL",
                OrderType::CloseShort => "CS",
            }
        } else {
            match self {
                OrderType::OpenLong => "Open Long",
                OrderType::OpenShort => "Open Short",
                OrderType::CloseLong => "Close Long",
                OrderType::CloseShort => "Close Short",
            }
        }
    }

    /// Whether an order of this type may open or increase a position, and so
    /// locks collateral while it rests.
    pub open spec fn spec_is_opening(&self) -> bool {
        *self == OrderType::OpenLong || *self == OrderType::OpenShort
    }

    /// Whether an order of this type may open or increase a position, and so
    /// locks collateral while it rests.
    #[verifier::when_used_as_spec(spec_is_opening)]
    pub fn is_opening(&self) -> (r: bool)
        ensures
            r == self.spec_is_opening(),
    {
        match self {
            OrderType::OpenLong | OrderType::OpenShort => true,
            OrderType::CloseLong | OrderType::CloseShort => false,
        }
    }

    /// The order type the exchange encodes as `value`, if there is one.
    pub open spec fn spec_from_u8(value: u8) -> Option<OrderType> {
        if value == 0 {
            Some(OrderType::OpenLong)
        } else if value == 1 {
            Some(OrderType::OpenShort)
        } else if value == 2 {
            Some(OrderType::CloseLong)
        } else if value == 3 {
            Some(OrderType::CloseShort)
        } else {
            None
        }
    }

    /// The order type the exchange encodes as `value`, if there is one.
    #[verifier::when_used_as_spec(spec_from_u8)]
    pub fn from_u8(value: u8) -> (r: Option<OrderType>)
        ensures
            r == OrderType::spec_from_u8(value),
    {
        match value {
            0 => Some(OrderType::OpenLong),
            1 => Some(OrderType::OpenShort),
            2 => Some(OrderType::CloseLong),
            3 => Some(OrderType::CloseShort),
            _ => None,
        }
    }

    /// The number the exchange encodes this order type as.
    pub fn to_u8(&self) -> (r: u8)
        ensures
            OrderType::spec_from_u8(r) == Some(*self),
    {
        match self {
            OrderType::OpenLong => 0,
            OrderType::OpenShort => 1,
            OrderType::CloseLong => 2,
            OrderType::CloseShort => 3,
        }
    }
}

impl OrderSide {
    /// The name of the side.
    pub fn name(&self) -> (r: &'static str)
        ensures
            r@ == (match *self {
                OrderSide::Ask => "Ask"@,
                OrderSide::Bid => "Bid"@,
            }),
    {
        match self {
            OrderSide::Ask => "Ask",
            OrderSide::Bid => "Bid",
        }
    }

    /// The other side of the book.
    pub open spec fn spec_opposite(&self) -> OrderSide {
        match self {
            OrderSide::Ask => OrderSide::Bid,
            OrderSide::Bid => OrderSide::Ask,
        }
    }

    /// The other side of the book.
    #[verifier::when_used_as_spec(spec_opposite)]
    pub fn opposite(&self) -> (r: OrderSide)
        ensures
            r == self.spec_opposite(),
    {
        match self {
            OrderSide::Ask => OrderSide::Bid,
            OrderSide::Bid => OrderSide::Ask,
        }
    }
}

/// The opposite of the opposite side is the side itself, and no side is its
/// own opposite.
pub proof fn lemma_opposite_involution(side: OrderSide)
    ensures
        side.spec_opposite().spec_opposite() == side,
        side.spec_opposite() != side,
{
}

} // verus!
