//! In-memory replica of a perpetual-futures exchange, rebuilt from its
//! ordered event log.
//!
//! The crate keeps accounts, positions, perpetual contracts and a
//! price-time-priority order book per contract in step with the blocks it is
//! fed, and derives state and trade events from them.
//!
//! * [`state::Exchange`] is the replica. It starts from the values that a
//!   snapshot of the exchange gives and moves forward block by block with
//!   [`state::Exchange::apply_events`], which either applies a block as a
//!   whole or leaves the replica as it was.
//! * [`state::OrderBook`] is the book of one perpetual contract: price levels
//!   best price first, each a FIFO queue of orders.
//! * [`stream::RawStream`] decides, fetch by fetch, which block comes next,
//!   so that no block is left out and none comes twice.
//! * [`stream::TradeProcessor`] folds the maker and taker fills of a block
//!   into trades.
//! * [`num`] holds the decimal numbers: unsigned integers of `10^-18`
//!   units, 128 bits wide.
//!
//! What a function changes is stated over mathematical values: the book as
//! maps from ID to order and from price to queue
//! ([`state::BookModel`]), the exchange as sequences of contracts and
//! accounts ([`state::ExchangeModel`]), and the effect of a block as the
//! function [`state::transition::apply_block`].

pub mod chain;
pub mod error;
pub mod num;
pub mod state;
pub mod stream;
pub mod types;

pub use chain::Chain;
