//! The raw stream of exchange events, block by block.
//!
//! The stream is driven from outside: whoever drives it fetches the block
//! the stream asks for and hands back what came of it; the stream decides
//! whether to ask again or to hand a block on. It never leaves a block out
//! and never hands one on twice.

use vstd::prelude::*;

use crate::error::DexError;
use crate::types::event::{BlockEvents, EventContext, ExchangeEvent, RawBlockEvents, RawEvent};
use crate::types::{StateInstant, TxHash};

verus! {

/// The position of the raw stream: the block it asks for next.
#[derive(Clone, Copy, Debug, PartialEq, Eq, Structural)]
pub struct RawStream {
    pub next_block: u64,
}

/// What came of fetching a block and its logs.
pub enum Fetched {
    /// The node does not have the block yet.
    NotAvailable,
    /// The block's timestamp and its decoded events, in their order.
    Block { timestamp: u64, events: Vec<RawEvent> },
    /// Fetching or decoding failed.
    Failed(DexError),
}

/// What the driver of the stream is to do next.
pub enum StreamAction {
    /// Wait for the poll interval, then fetch the same block again.
    Retry,
    /// Hand the item on to the consumer.
    Yield(Result<RawBlockEvents, DexError>),
}

/// Whether the outcome of a fetch is passing: the block is not there yet.
pub open spec fn transient(fetched: Fetched) -> bool {
    fetched is NotAvailable || (fetched matches Fetched::Failed(e) && e == DexError::InvalidRequest)
}

/// The block that the stream asks for after the outcome of a fetch: the
/// following one after a block has come, else the same again.
pub open spec fn block_after(next_block: u64, fetched: Fetched) -> u64 {
    if fetched is Block {
        (next_block + 1) as u64
    } else {
        next_block
    }
}

/// The numbers of the blocks that the stream hands on while it is given the
/// first `n` of the outcomes, starting at block `start`.
pub open spec fn handed_on(start: u64, outcomes: Seq<Fetched>, n: int) -> Seq<u64>
    decreases n,
{
    if n <= 0 {
        Seq::empty()
    } else if outcomes[n - 1] is Block {
        handed_on(start, outcomes, n - 1).push(asked_for(start, outcomes, n - 1))
    } else {
        handed_on(start, outcomes, n - 1)
    }
}

/// The block that the stream asks for after the first `n` of the outcomes,
/// starting at block `start`.
pub open spec fn asked_for(start: u64, outcomes: Seq<Fetched>, n: int) -> u64
    decreases n,
{
    if n <= 0 {
        start
    } else {
        block_after(asked_for(start, outcomes, n - 1), outcomes[n - 1])
    }
}

/// Whatever the outcomes of the fetches, the stream hands on the blocks from
/// its start in their order, each once and none left out: the `k`-th block
/// handed on is block `start + k`, and the stream then asks for the block
/// after the last one handed on.
pub proof fn lemma_stream_gap_free(start: u64, outcomes: Seq<Fetched>, n: int)
    requires
        0 <= n <= outcomes.len(),
        start + n <= u64::MAX,
    ensures
        asked_for(start, outcomes, n) == start + handed_on(start, outcomes, n).len(),
        handed_on(start, outcomes, n).len() <= n,
        forall|k: int|
            0 <= k < handed_on(start, outcomes, n).len() ==> #[trigger] handed_on(
                start,
                outcomes,
                n,
            )[k] == start + k,
    decreases n,
{
    if n > 0 {
        lemma_stream_gap_free(start, outcomes, n - 1);
    }
}

/// An event of the exchange with its place in the block as the log gives
/// it; a place that the log leaves out counts as zero.
pub fn raw_event(
    tx_hash: Option<TxHash>,
    tx_index: Option<u64>,
    log_index: Option<u64>,
    event: ExchangeEvent,
) -> (r: RawEvent)
    ensures
        r.tx_hash == (match tx_hash {
            Some(h) => h,
            None => TxHash { high: 0, low: 0 },
        }),
        r.tx_index == (match tx_index {
            Some(i) => i,
            None => 0,
        }),
        r.log_index == (match log_index {
            Some(i) => i,
            None => 0,
        }),
        r.event == event,
{
    EventContext::new(
        match tx_hash {
            Some(h) => h,
            None => TxHash::zero(),
        },
        match tx_index {
            Some(i) => i,
            None => 0,
        },
        match log_index {
            Some(i) => i,
            None => 0,
        },
        event,
    )
}

impl RawStream {
    /// A stream that starts with the block of `from`.
    pub fn new(from: StateInstant) -> (r: RawStream)
        ensures
            r.next_block == from.block_number,
    {
        RawStream { next_block: from.block_number }
    }

    /// The block to fetch next.
    pub fn next_block(&self) -> (r: u64)
        ensures
            r == self.next_block,
    {
        self.next_block
    }

    /// Takes the outcome of fetching the block that the stream asked for.
    ///
    /// A block that is not there yet is asked for again after a pause. A
    /// block that has come is handed on with all its events, be there none,
    /// and the stream moves to the following block. Any other failure is
    /// handed on, and the stream stays at the block.
    pub fn on_fetched(&mut self, fetched: Fetched) -> (r: StreamAction)
        requires
            old(self).next_block < u64::MAX,
        ensures
            final(self).next_block == block_after(old(self).next_block, fetched),
            transient(fetched) <==> r is Retry,
            match fetched {
                Fetched::NotAvailable => r is Retry,
                Fetched::Block { timestamp, events } => r matches StreamAction::Yield(Ok(block))
                    && block.instant == (StateInstant {
                    block_number: old(self).next_block,
                    block_timestamp: timestamp,
                }) && block.events == events && final(self).next_block == old(self).next_block + 1,
                Fetched::Failed(e) => if e == DexError::InvalidRequest {
                    r is Retry
                } else {
                    r matches StreamAction::Yield(Err(f)) && f == e
                },
            },
    {
        match fetched {
            Fetched::NotAvailable => StreamAction::Retry,
            Fetched::Block { timestamp, events } => {
                let instant = StateInstant::new(self.next_block, timestamp);
                self.next_block = self.next_block + 1;
                StreamAction::Yield(Ok(BlockEvents::new(instant, events)))
            },
            Fetched::Failed(e) => {
                if e == DexError::InvalidRequest {
                    StreamAction::Retry
                } else {
                    StreamAction::Yield(Err(e))
                }
            },
        }
    }
}

} // verus!
