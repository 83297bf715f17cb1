//! Applying a block of events to the exchange as a whole.

use vstd::prelude::*;

use crate::error::DexError;
use crate::state::apply::lemma_with_perp;
use crate::state::exchange::{Exchange, TxScratch};
use crate::state::order::Order;
use crate::state::transition::{
    advance, all_expired_events, apply_block, apply_event, event_models, expire_all,
    expired_events, group_model, group_models, run, EventModel, ExchangeModel, GroupModel, Run,
};
use crate::types::event::{
    BlockEvents, EventContext, OrderEvent, RawBlockEvents, RawEvent, StateBlockEvents, StateEvent,
    StateEvents,
};
use crate::types::{PerpetualId, StateInstant, TxHash};

verus! {

/// Once an event of a block fails, the block fails with that error however
/// many events follow.
pub proof fn lemma_run_error(
    model: ExchangeModel,
    instant: StateInstant,
    events: Seq<RawEvent>,
    n: int,
    m: int,
)
    requires
        0 <= n <= m,
        run(model, instant, events, n) is Err,
    ensures
        run(model, instant, events, m) == run(model, instant, events, n),
    decreases m - n,
{
    if n < m {
        lemma_run_error(model, instant, events, n, m - 1);
    }
}

/// Adds the state events for the expired orders of a perpetual contract.
fn push_expired(perpetual_id: PerpetualId, orders: &Vec<Order>, out: &mut Vec<StateEvent>)
    ensures
        event_models(final(out)@) == event_models(old(out)@) + Seq::new(
            orders@.len(),
            |i: int|
                EventModel::Plain(
                    StateEvent::OrderExpired(
                        OrderEvent {
                            perpetual_id,
                            request_id: orders@[i].request_id,
                            order: orders@[i],
                        },
                    ),
                ),
        ),
{
    let ghost start = out@;
    let mut i: usize = 0;
    while i < orders.len()
        invariant
            0 <= i <= orders@.len(),
            out@.len() == start.len() + i,
            forall|j: int| 0 <= j < start.len() ==> out@[j] == start[j],
            forall|j: int|
                0 <= j < i ==> out@[start.len() + j] == StateEvent::OrderExpired(
                    OrderEvent {
                        perpetual_id,
                        request_id: orders@[j].request_id,
                        order: orders@[j],
                    },
                ),
        decreases orders@.len() - i,
    {
        let order = orders[i];
        out.push(
            StateEvent::OrderExpired(
                OrderEvent { perpetual_id, request_id: order.request_id, order },
            ),
        );
        i = i + 1;
    }
    assert(event_models(out@) =~= event_models(start) + Seq::new(
        orders@.len(),
        |i: int|
            EventModel::Plain(
                StateEvent::OrderExpired(
                    OrderEvent {
                        perpetual_id,
                        request_id: orders@[i].request_id,
                        order: orders@[i],
                    },
                ),
            ),
    ));
}

impl Exchange {
    /// Applies the next event of a block and adds the group of its state
    /// events, if it reports any.
    pub(crate) fn apply_next(
        &mut self,
        scratch: &mut TxScratch,
        groups: &mut Vec<StateEvents>,
        instant: StateInstant,
        raw: &RawEvent,
    ) -> (r: Result<(), DexError>)
        requires
            old(self).wf(),
        ensures
            final(self).chain == old(self).chain,
            match advance(
                Run {
                    model: old(self)@,
                    scratch: old(scratch)@,
                    groups: group_models(old(groups)@),
                },
                instant,
                *raw,
            ) {
                Ok(next) => r is Ok && final(self).wf() && next == (Run {
                    model: final(self)@,
                    scratch: final(scratch)@,
                    groups: group_models(final(groups)@),
                }),
                Err(e) => r is Err && r->Err_0 == e,
            },
    {
        reveal(advance);
        let ghost before_groups = groups@;
        scratch.enter(raw.tx_index);
        match self.apply_event(scratch, instant, raw) {
            Ok(reported) => {
                scratch.prev_tx_index = Some(raw.tx_index);
                if reported.len() > 0 {
                    let group = EventContext::new(raw.tx_hash, raw.tx_index, raw.log_index, reported);
                    groups.push(group);
                    proof {
                        assert(group_models(groups@) =~= group_models(before_groups).push(
                            group_model(group),
                        ));
                    }
                }
                Ok(())
            },
            Err(e) => Err(e),
        }
    }

    /// Applies the events of a block at the block's instant, one after the
    /// other, and hands back the groups of state events. On an error the
    /// exchange may be left in between.
    pub(crate) fn apply_block_events(&mut self, instant: StateInstant, events: &Vec<RawEvent>) -> (r:
        Result<Vec<StateEvents>, DexError>)
        requires
            old(self).wf(),
        ensures
            final(self).chain == old(self).chain,
            match run(old(self)@, instant, events@, events@.len() as int) {
                Ok(done) => r is Ok && final(self).wf() && final(self)@ == done.model
                    && group_models(r->Ok_0@) == done.groups,
                Err(e) => r is Err && r->Err_0 == e,
            },
    {
        let ghost start = self@;
        let mut scratch = TxScratch::new();
        let mut groups: Vec<StateEvents> = Vec::new();
        let mut i: usize = 0;
        assert(group_models(groups@) =~= Seq::<GroupModel>::empty());
        while i < events.len()
            invariant
                0 <= i <= events@.len(),
                self.wf(),
                self.chain == old(self).chain,
                start == old(self)@,
                run(start, instant, events@, i as int) == Ok::<Run, DexError>(
                    Run { model: self@, scratch: scratch@, groups: group_models(groups@) },
                ),
            decreases events@.len() - i,
        {
            let ghost before = Run {
                model: self@,
                scratch: scratch@,
                groups: group_models(groups@),
            };
            match self.apply_next(&mut scratch, &mut groups, instant, &events[i]) {
                Ok(_) => {},
                Err(e) => {
                    proof {
                        assert(run(start, instant, events@, i + 1) == advance(
                            before,
                            instant,
                            events@[i as int],
                        ));
                        assert(run(start, instant, events@, i + 1) == Err::<Run, DexError>(e));
                        lemma_run_error(start, instant, events@, i + 1, events@.len() as int);
                    }
                    return Err(e);
                },
            }
            proof {
                assert(run(start, instant, events@, i + 1) == advance(
                    before,
                    instant,
                    events@[i as int],
                ));
            }
            i = i + 1;
        }
        Ok(groups)
    }

    /// The end-of-block expiry step: in every perpetual contract, brings
    /// every order up to `instant` that this makes expired, and hands back
    /// the state events for those orders, contract by contract and by
    /// ascending order ID.
    pub(crate) fn expire_orders(&mut self, instant: StateInstant) -> (r: Vec<StateEvent>)
        requires
            old(self).wf(),
        ensures
            final(self).wf(),
            final(self).chain == old(self).chain,
            final(self)@ == (ExchangeModel {
                perpetuals: expire_all(old(self)@.perpetuals, instant),
                ..old(self)@
            }),
            event_models(r@) == all_expired_events(
                old(self)@.perpetuals,
                instant,
                old(self)@.perpetuals.len() as int,
            ),
    {
        let ghost start = self@;
        let mut out: Vec<StateEvent> = Vec::new();
        let mut i: usize = 0;
        assert(event_models(out@) =~= Seq::<EventModel>::empty());
        while i < self.perpetuals.len()
            invariant
                0 <= i <= self.perpetuals@.len(),
                self.wf(),
                self.chain == old(self).chain,
                start == old(self)@,
                self@.state == start.state,
                self@.accounts == start.accounts,
                self@.perpetuals.len() == start.perpetuals.len(),
                forall|j: int|
                    0 <= j < start.perpetuals.len() ==> #[trigger] self@.perpetuals[j] == (if j < i {
                        start.perpetuals[j].expire(instant)
                    } else {
                        start.perpetuals[j]
                    }),
                event_models(out@) == all_expired_events(start.perpetuals, instant, i as int),
            decreases self.perpetuals@.len() - i,
        {
            let ghost before = *self;
            let perpetual_id = self.perpetuals[i].state.id;
            assert(self.perpetuals@[i as int].wf());
            assert(self@.perpetuals[i as int] == start.perpetuals[i as int]);
            let orders = self.perpetuals[i].expire_orders(instant);
            proof {
                lemma_with_perp(before, *self, i as int);
            }
            push_expired(perpetual_id, &orders, &mut out);
            proof {
                assert(expired_events(start.perpetuals[i as int], instant) =~= Seq::new(
                    orders@.len(),
                    |k: int|
                        EventModel::Plain(
                            StateEvent::OrderExpired(
                                OrderEvent {
                                    perpetual_id,
                                    request_id: orders@[k].request_id,
                                    order: orders@[k],
                                },
                            ),
                        ),
                ));
            }
            i = i + 1;
        }
        proof {
            assert(self@.perpetuals =~= expire_all(start.perpetuals, instant));
        }
        out
    }

    /// Applies the next block to the exchange.
    ///
    /// The block must be the one that follows the exchange's instant; any
    /// other is refused with `BlockOutOfOrder`. Its events are applied in
    /// their order, each at the block's instant; then every order whose last
    /// block has passed is marked expired; then the exchange stands at the
    /// block's instant. The state events come back in groups, one for each
    /// event of the exchange that gave rise to any, and one at the end for
    /// the expired orders; there is none for a block without state events.
    ///
    /// An event that cannot be applied fails the block with its error, and
    /// the exchange is then as it was before the block.
    pub fn apply_events(&mut self, block: &RawBlockEvents) -> (r: Result<
        Option<StateBlockEvents>,
        DexError,
    >)
        requires
            old(self).wf(),
        ensures
            final(self).wf(),
            final(self).chain == old(self).chain,
            match apply_block(old(self)@, block.instant, block.events@) {
                Ok((model, groups)) => final(self)@ == model && (match r {
                    Ok(Some(reported)) => reported.instant == block.instant && group_models(
                        reported.events@,
                    ) == groups && groups.len() > 0,
                    Ok(None) => groups.len() == 0,
                    Err(_) => false,
                }),
                Err(e) => r is Err && r->Err_0 == e && final(self)@ == old(self)@,
            },
            r is Ok ==> final(self)@.state.instant == block.instant && block.instant.block_number
                == old(self)@.state.instant.block_number + 1,
            block.instant.block_number != old(self)@.state.instant.block_number + 1 ==> r is Err
                && r->Err_0 == (DexError::BlockOutOfOrder {
                current: old(self)@.state.instant.block_number,
                found: block.instant.block_number,
            }),
            r is Err ==> final(self)@ == old(self)@,
    {
        let current = self.state.instant.block_number;
        if current == u64::MAX || block.instant.block_number != current + 1 {
            return Err(DexError::BlockOutOfOrder { current, found: block.instant.block_number });
        }
        let backup = self.duplicate();
        let ghost before = self@;
        let mut groups = match self.apply_block_events(block.instant, &block.events) {
            Ok(groups) => groups,
            Err(e) => {
                self.state = backup.state;
                self.perpetuals = backup.perpetuals;
                self.accounts = backup.accounts;
                return Err(e);
            },
        };
        let ghost done_groups = groups@;
        let expired = self.expire_orders(block.instant);
        self.state.instant = block.instant;
        if expired.len() > 0 {
            let group = EventContext::new(TxHash::zero(), u64::MAX, u64::MAX, expired);
            groups.push(group);
            proof {
                assert(group_models(groups@) =~= group_models(done_groups).push(
                    group_model(group),
                ));
            }
        }
        if groups.len() > 0 {
            Ok(Some(BlockEvents::new(block.instant, groups)))
        } else {
            Ok(None)
        }
    }
}

/// The replica after the first `n` of the blocks have been applied one
/// after the other, or the error of the first block that fails.
pub open spec fn replay(model: ExchangeModel, blocks: Seq<RawBlockEvents>, n: int) -> Result<
    ExchangeModel,
    DexError,
>
    decreases n,
{
    if n <= 0 {
        Ok(model)
    } else {
        match replay(model, blocks, n - 1) {
            Err(e) => Err(e),
            Ok(before) => match apply_block(before, blocks[n - 1].instant, blocks[n - 1].events@) {
                Ok((after, _)) => Ok(after),
                Err(e) => Err(e),
            },
        }
    }
}

/// Applying blocks is a function of the replica's value and the blocks: two
/// replicas of equal value are of equal value again after the same blocks,
/// or fail with the same error.
pub proof fn lemma_replay_deterministic(
    a: ExchangeModel,
    b: ExchangeModel,
    blocks: Seq<RawBlockEvents>,
    n: int,
)
    requires
        a == b,
    ensures
        replay(a, blocks, n) == replay(b, blocks, n),
{
}

/// A block that is applied moves the replica's instant forward by exactly
/// one block, to the instant of the block; any block but the next one is
/// refused.
pub proof fn lemma_apply_block_advances(
    model: ExchangeModel,
    instant: StateInstant,
    events: Seq<RawEvent>,
)
    ensures
        apply_block(model, instant, events) matches Ok((after, _)) ==> after.state.instant
            == instant && instant.block_number == model.state.instant.block_number + 1,
        instant.block_number != model.state.instant.block_number + 1 ==> apply_block(
            model,
            instant,
            events,
        ) == Err::<(ExchangeModel, Seq<GroupModel>), DexError>(
            DexError::BlockOutOfOrder {
                current: model.state.instant.block_number,
                found: instant.block_number,
            },
        ),
{
}

/// Blocks that are applied one after the other move the replica forward by
/// as many blocks as there are.
pub proof fn lemma_replay_advances(model: ExchangeModel, blocks: Seq<RawBlockEvents>, n: int)
    requires
        0 <= n <= blocks.len(),
    ensures
        replay(model, blocks, n) matches Ok(after) ==> after.state.instant.block_number
            == model.state.instant.block_number + n,
    decreases n,
{
    if n > 0 {
        lemma_replay_advances(model, blocks, n - 1);
        match replay(model, blocks, n - 1) {
            Ok(before) => {
                lemma_apply_block_advances(before, blocks[n - 1].instant, blocks[n - 1].events@);
            },
            Err(_) => {},
        }
    }
}

} // verus!
