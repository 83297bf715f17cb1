//! Errors of the engine.

use vstd::prelude::*;

use crate::types::{OrderId, PerpetualId};

verus! {

/// What can go wrong while events are fetched, decoded and applied.
#[derive(Clone, Copy, Debug, PartialEq, Eq, Structural)]
pub enum DexError {
    /// The requested block is not available yet; the only error the raw
    /// stream retries.
    InvalidRequest,
    /// The transport to the node failed.
    Transport,
    /// A log could not be decoded.
    Decode,
    /// An order id of zero stood where an order is required.
    InvalidOrderId,
    /// An order was to be changed or removed that the book does not hold.
    OrderNotFound(PerpetualId, OrderId),
    /// An order was to be placed under an id that is still taken.
    DuplicateOrderId(PerpetualId, OrderId),
    /// A block was applied that does not directly follow the current one.
    BlockOutOfOrder { current: u64, found: u64 },
    /// An order event arrived outside of any order request.
    MissingOrderContext,
    /// A field of an event holds a value outside of its domain.
    InvalidEvent,
    /// A quantity left the range of the decimal types.
    NumericOverflow,
    /// A configuration value was rejected.
    InvalidArgument,
}

} // verus!
