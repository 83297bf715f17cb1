//! Watching the state events of the blocks for a block or a request.

use vstd::prelude::*;

use crate::types::event::{StateBlockEvents, StateEvent, StateEvents};
use crate::types::RequestId;

verus! {

/// The request that a state event names: that of its order event, if it is
/// about an order and the request is known.
pub open spec fn event_request(event: StateEvent) -> Option<RequestId> {
    match event.spec_as_order_event() {
        Some(e) => e.request_id,
        None => None,
    }
}

/// Whether a state event is about an order of the request `request_id`. An
/// order event without a request counts for the request zero.
pub open spec fn event_is_of(event: StateEvent, request_id: RequestId) -> bool {
    match event.spec_as_order_event() {
        Some(e) => match e.request_id {
            Some(id) => id == request_id,
            None => request_id == 0,
        },
        None => false,
    }
}

/// Whether one of the events is about an order of the request.
pub open spec fn events_mention(events: Seq<StateEvent>, request_id: RequestId) -> bool {
    exists|i: int| 0 <= i < events.len() && event_is_of(#[trigger] events[i], request_id)
}

/// Whether one of the groups holds an event about an order of the request.
pub open spec fn groups_mention(groups: Seq<StateEvents>, request_id: RequestId) -> bool {
    exists|g: int| 0 <= g < groups.len() && events_mention((#[trigger] groups[g]).event@, request_id)
}

/// Whether the state events of a block are what is waited for: the block is
/// the awaited block, or one of its events is about an order of the awaited
/// request.
pub open spec fn spec_awaited(
    block: StateBlockEvents,
    block_number: Option<u64>,
    request_id: Option<RequestId>,
) -> bool {
    ||| block_number matches Some(n) && block.instant.block_number == n
    ||| request_id matches Some(id) && groups_mention(block.events@, id)
}

/// The requests that the events name, in the order of the events.
pub open spec fn requests_of(events: Seq<StateEvent>, n: int) -> Seq<RequestId>
    decreases n,
{
    if n <= 0 {
        Seq::empty()
    } else {
        match event_request(events[n - 1]) {
            Some(id) => requests_of(events, n - 1).push(id),
            None => requests_of(events, n - 1),
        }
    }
}

/// The requests that the events of the first `n` groups name, group by
/// group.
pub open spec fn block_requests(groups: Seq<StateEvents>, n: int) -> Seq<RequestId>
    decreases n,
{
    if n <= 0 {
        Seq::empty()
    } else {
        block_requests(groups, n - 1) + requests_of(
            groups[n - 1].event@,
            groups[n - 1].event@.len() as int,
        )
    }
}

/// Whether one of the events is about an order of the request.
fn mentioned(events: &Vec<StateEvent>, request_id: RequestId) -> (r: bool)
    ensures
        r == events_mention(events@, request_id),
{
    let mut i: usize = 0;
    while i < events.len()
        invariant
            0 <= i <= events@.len(),
            forall|j: int| 0 <= j < i ==> !event_is_of(#[trigger] events@[j], request_id),
        decreases events@.len() - i,
    {
        let found = match events[i].as_order_event() {
            Some(e) => match e.request_id {
                Some(id) => id == request_id,
                None => request_id == 0,
            },
            None => false,
        };
        if found {
            assert(event_is_of(events@[i as int], request_id));
            return true;
        }
        i = i + 1;
    }
    false
}

/// Whether the state events of a block are what is waited for: the block is
/// the awaited block, or one of its events is about an order of the awaited
/// request.
pub fn awaited(block: &StateBlockEvents, block_number: Option<u64>, request_id: Option<RequestId>) -> (r:
    bool)
    ensures
        r == spec_awaited(*block, block_number, request_id),
{
    match block_number {
        Some(n) => {
            if block.instant.block_number == n {
                return true;
            }
        },
        None => {},
    }
    match request_id {
        Some(id) => {
            let mut g: usize = 0;
            while g < block.events.len()
                invariant
                    0 <= g <= block.events@.len(),
                    request_id == Some(id),
                    forall|j: int|
                        0 <= j < g ==> !events_mention((#[trigger] block.events@[j]).event@, id),
                decreases block.events@.len() - g,
            {
                if mentioned(&block.events[g].event, id) {
                    assert(events_mention(block.events@[g as int].event@, id));
                    assert(groups_mention(block.events@, id));
                    return true;
                }
                g = g + 1;
            }
            false
        },
        None => false,
    }
}

/// The requests that the state events of a block name, in the order of the
/// events.
pub fn request_ids(block: &StateBlockEvents) -> (r: Vec<RequestId>)
    ensures
        r@ == block_requests(block.events@, block.events@.len() as int),
{
    let mut out: Vec<RequestId> = Vec::new();
    let mut g: usize = 0;
    while g < block.events.len()
        invariant
            0 <= g <= block.events@.len(),
            out@ == block_requests(block.events@, g as int),
        decreases block.events@.len() - g,
    {
        let ghost start = out@;
        let events = &block.events[g].event;
        let mut i: usize = 0;
        assert(start + requests_of(events@, 0) =~= start);
        while i < events.len()
            invariant
                0 <= i <= events@.len(),
                out@ == start + requests_of(events@, i as int),
            decreases events@.len() - i,
        {
            match events[i].as_order_event() {
                Some(e) => {
                    match e.request_id {
                        Some(id) => {
                            out.push(id);
                        },
                        None => {},
                    }
                },
                None => {},
            }
            assert(out@ =~= start + requests_of(events@, i + 1));
            i = i + 1;
        }
        g = g + 1;
    }
    out
}

} // verus!
