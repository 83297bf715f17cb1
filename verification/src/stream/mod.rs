//! Streams of events: the raw events of the exchange block by block, and the
//! trades derived from them.

pub mod raw;
pub mod trade;

pub use crate::types::event::{RawBlockEvents, RawEvent};
pub use raw::{Fetched, RawStream, StreamAction};
pub use trade::{BlockTrades, NormalizationConfig, PerpetualConverters, TradeEvent, TradeProcessor};
