//! Applying the events of the exchange to the replica.

use vstd::prelude::*;

use crate::error::DexError;
use crate::num::Decimal;
use crate::state::account::Account;
use crate::state::exchange::{Exchange, TxScratch};
use crate::state::keyed::lemma_distinct_push;
use crate::state::order::Order;
use crate::state::perpetual::PerpetualState;
use crate::state::position::{convert, Position};
use crate::state::transition::{
    account_keys, apply_event, event_models, maker_filled, order_cancelled, order_changed,
    order_placed, pending_fills, perp_changed, perp_keys, reported, same_transaction,
    taker_filled, EventModel, PendingFill, Scratch, Step,
};
use crate::types::request::RequestType;
use crate::types::trade::{MakerFill, Trade};
use crate::types::event::{EventContext, ExchangeEvent, OrderContext, OrderEvent, StateEvent};
use crate::types::order::OrderSide;
use crate::types::{AccountId, Address, PerpetualId, StateInstant};

verus! {

/// Replacing a perpetual contract by a consistent one of the same ID gives a
/// well-formed exchange whose value differs in that contract only.
pub proof fn lemma_with_perp(before: Exchange, after: Exchange, i: int)
    requires
        before.wf(),
        0 <= i < before.perpetuals@.len(),
        after.perpetuals@.len() == before.perpetuals@.len(),
        forall|j: int|
            0 <= j < before.perpetuals@.len() && j != i ==> after.perpetuals@[j]
                == before.perpetuals@[j],
        after.perpetuals@[i].state.id == before.perpetuals@[i].state.id,
        after.perpetuals@[i].wf(),
        after.accounts@ == before.accounts@,
        after.state == before.state,
    ensures
        after.wf(),
        before@.has_perp(before.perpetuals@[i].state.id),
        before@.perp_index(before.perpetuals@[i].state.id) == i,
        after@ == before@.with_perp(before.perpetuals@[i].state.id, after.perpetuals@[i]@),
        after@.accounts == before@.accounts,
{
    crate::state::keyed::lemma_key_index(perp_keys(before@.perpetuals), i);
    assert(perp_keys(after@.perpetuals) =~= perp_keys(before@.perpetuals));
    assert(after@.perpetuals =~= before@.perpetuals.update(i, after.perpetuals@[i]@));
    assert(after@.accounts =~= before@.accounts);
    assert forall|j: int| 0 <= j < after.perpetuals@.len() implies (#[trigger] after.perpetuals@[j]).wf() by {
        if j != i {
            assert(before.perpetuals@[j].wf());
        }
    }
    assert forall|j: int| 0 <= j < after.accounts@.len() implies (#[trigger] after.accounts@[j]).wf() by {
        assert(before.accounts@[j].wf());
    }
}

/// Replacing an account by a well-formed one of the same ID gives a
/// well-formed exchange whose value differs in that account only.
pub proof fn lemma_with_account(before: Exchange, after: Exchange, i: int)
    requires
        before.wf(),
        0 <= i < before.accounts@.len(),
        after.accounts@.len() == before.accounts@.len(),
        forall|j: int|
            0 <= j < before.accounts@.len() && j != i ==> after.accounts@[j] == before.accounts@[j],
        after.accounts@[i].id == before.accounts@[i].id,
        after.accounts@[i].wf(),
        after.perpetuals@ == before.perpetuals@,
        after.state == before.state,
    ensures
        after.wf(),
        before@.has_account(before.accounts@[i].id),
        before@.account_index(before.accounts@[i].id) == i,
        after@ == before@.with_account(before.accounts@[i].id, after.accounts@[i]@),
        after@.perpetuals == before@.perpetuals,
{
    crate::state::keyed::lemma_key_index(account_keys(before@.accounts), i);
    assert(account_keys(after@.accounts) =~= account_keys(before@.accounts));
    assert(after@.accounts =~= before@.accounts.update(i, after.accounts@[i]@));
    assert(after@.perpetuals =~= before@.perpetuals);
    assert forall|j: int| 0 <= j < after.accounts@.len() implies (#[trigger] after.accounts@[j]).wf() by {
        if j != i {
            assert(before.accounts@[j].wf());
        }
    }
    assert forall|j: int| 0 <= j < after.perpetuals@.len() implies (#[trigger] after.perpetuals@[j]).wf() by {
        assert(before.perpetuals@[j].wf());
    }
}

/// One state event as the events that a step reports.
pub(crate) fn one_event(event: StateEvent) -> (r: Vec<StateEvent>)
    requires
        !(event is Trade),
    ensures
        event_models(r@) == Seq::<EventModel>::empty().push(EventModel::Plain(event)),
{
    let mut r: Vec<StateEvent> = Vec::new();
    r.push(event);
    assert(event_models(r@) =~= Seq::<EventModel>::empty().push(EventModel::Plain(event)));
    r
}

/// No state event.
pub(crate) fn no_event() -> (r: Vec<StateEvent>)
    ensures
        event_models(r@) == Seq::<EventModel>::empty(),
{
    let r: Vec<StateEvent> = Vec::new();
    assert(event_models(r@) =~= Seq::<EventModel>::empty());
    r
}

/// Whether the exchange and the reported events are what the step says.
pub open spec fn matches_step(
    expected: Result<Step, DexError>,
    result: Result<Vec<StateEvent>, DexError>,
    exchange: Exchange,
    scratch: Scratch,
) -> bool {
    match expected {
        Ok(step) => result is Ok && exchange.wf() && exchange@ == step.model && scratch
            == step.scratch && event_models(result->Ok_0@) == step.events,
        Err(e) => result is Err && result->Err_0 == e,
    }
}

impl Exchange {
    /// Sets the state of the perpetual contract at index `i`.
    pub(crate) fn set_perpetual_state(&mut self, i: usize, state: PerpetualState)
        requires
            old(self).wf(),
            i < old(self).perpetuals@.len(),
            state.id == old(self).perpetuals@[i as int].state.id,
        ensures
            final(self).wf(),
            final(self).chain == old(self).chain,
            final(self)@ == old(self)@.with_perp_state(state.id, state),
    {
        let ghost before = *self;
        self.perpetuals[i].state = state;
        proof {
            lemma_with_perp(before, *self, i as int);
        }
    }

    /// Sets the locked balance of the account, if the exchange knows it.
    pub(crate) fn lock(&mut self, instant: StateInstant, account_id: AccountId, locked_balance: Decimal)
        requires
            old(self).wf(),
        ensures
            final(self).wf(),
            final(self).chain == old(self).chain,
            final(self).perpetuals == old(self).perpetuals,
            final(self)@ == old(self)@.lock(instant, account_id, locked_balance),
    {
        match self.find_account(account_id) {
            Some(i) => {
                let ghost before = *self;
                self.accounts[i].update_locked_balance(instant, locked_balance);
                proof {
                    assert(before.accounts@[i as int].wf());
                    lemma_with_account(before, *self, i as int);
                }
            },
            None => {},
        }
    }

    /// The position of the account in the perpetual contract.
    pub fn position(&self, account_id: AccountId, perpetual_id: PerpetualId) -> (r: Option<Position>)
        requires
            self.wf(),
        ensures
            r == self@.position(account_id, perpetual_id),
            r matches Some(p) ==> p.wf() && p.perpetual_id == perpetual_id,
    {
        match self.find_account(account_id) {
            Some(i) => {
                assert(self.accounts@[i as int].wf());
                self.accounts[i].position(perpetual_id)
            },
            None => None,
        }
    }

    /// Sets or clears the position of the account in the perpetual contract.
    /// An account that the exchange does not know joins, known by its ID
    /// only, when it gets a position.
    pub(crate) fn set_position(
        &mut self,
        instant: StateInstant,
        account_id: AccountId,
        perpetual_id: PerpetualId,
        position: Option<Position>,
    )
        requires
            old(self).wf(),
            position matches Some(p) ==> p.wf() && p.perpetual_id == perpetual_id,
        ensures
            final(self).wf(),
            final(self).chain == old(self).chain,
            final(self).perpetuals == old(self).perpetuals,
            final(self)@ == old(self)@.with_position(instant, account_id, perpetual_id, position),
    {
        let ghost before = *self;
        match self.find_account(account_id) {
            Some(i) => {
                assert(self.accounts@[i as int].wf());
                self.accounts[i].set_position(instant, perpetual_id, position);
                proof {
                    lemma_with_account(before, *self, i as int);
                }
            },
            None => {
                match position {
                    Some(p) => {
                        let mut account = Account::from_event(instant, account_id, Address::zero());
                        account.set_position(instant, perpetual_id, Some(p));
                        proof {
                            lemma_distinct_push(account_keys(self@.accounts), account_id);
                        }
                        self.accounts.push(account);
                        proof {
                            assert(self@.accounts =~= before@.accounts.push(account@));
                            assert(account_keys(self@.accounts) =~= account_keys(
                                before@.accounts,
                            ).push(account_id));
                            assert(self@.perpetuals =~= before@.perpetuals);
                            assert forall|j: int| 0 <= j < self.accounts@.len() implies (#[trigger] self.accounts@[j]).wf() by {
                                if j < before.accounts@.len() {
                                    assert(before.accounts@[j].wf());
                                }
                            }
                            assert forall|j: int| 0 <= j < self.perpetuals@.len() implies (#[trigger] self.perpetuals@[j]).wf() by {
                                assert(before.perpetuals@[j].wf());
                            }
                        }
                    },
                    None => {},
                }
            },
        }
    }

    /// Moves the position of the account in the perpetual contract at index
    /// `i` with a fill, and the open interest of the contract with it.
    pub(crate) fn fill_position(
        &mut self,
        instant: StateInstant,
        i: usize,
        account_id: AccountId,
        side: OrderSide,
        price: Decimal,
        size: Decimal,
    ) -> (r: Result<(), DexError>)
        requires
            old(self).wf(),
            i < old(self).perpetuals@.len(),
        ensures
            final(self).chain == old(self).chain,
            match old(self)@.fill_position(
                instant,
                old(self).perpetuals@[i as int].state.id,
                account_id,
                side,
                price,
                size,
            ) {
                Ok(m) => r is Ok && final(self).wf() && final(self)@ == m && final(self).perpetuals@.len() == old(self).perpetuals@.len() && final(self).perpetuals@[i as int].state.id == old(self).perpetuals@[i as int].state.id,
                Err(e) => r == Err::<(), DexError>(e),
            },
    {
        let ghost before = *self;
        let perpetual_id = self.perpetuals[i].state.id;
        proof {
            crate::state::keyed::lemma_key_index(perp_keys(self@.perpetuals), i as int);
        }
        let current = self.position(account_id, perpetual_id);
        let next = match Position::filled(
            current,
            instant,
            perpetual_id,
            account_id,
            side,
            price,
            size,
        ) {
            Ok(next) => next,
            Err(e) => {
                return Err(e);
            },
        };
        assert(self.perpetuals@[i as int].wf());
        match self.perpetuals[i].update_open_interest(
            instant,
            Position::long_size(current),
            Position::long_size(next),
        ) {
            Ok(_) => {},
            Err(e) => {
                return Err(e);
            },
        }
        proof {
            lemma_with_perp(before, *self, i as int);
            assert(before@.position(account_id, perpetual_id) == current);
            assert(before@.perpetuals[before@.perp_index(perpetual_id)] == before.perpetuals@[i as int]@);
        }
        let ghost mid = *self;
        self.set_position(instant, account_id, perpetual_id, next);
        proof {
            assert(mid@ == before@.with_perp(perpetual_id, mid.perpetuals@[i as int]@));
        }
        Ok(())
    }

    /// Applies a change of a price or a parameter of a perpetual contract.
    pub(crate) fn on_perp_changed(
        &mut self,
        perpetual_id: PerpetualId,
        state: PerpetualState,
        event: StateEvent,
    ) -> (r: Vec<StateEvent>)
        requires
            old(self).wf(),
            state.id == perpetual_id,
            !(event is Trade),
        ensures
            final(self).chain == old(self).chain,
            perp_changed(old(self)@, Scratch::empty(), perpetual_id, state, event) matches Ok(step)
                && final(self).wf() && final(self)@ == step.model && event_models(r@)
                == step.events,
    {
        match self.find_perpetual(perpetual_id) {
            Some(i) => {
                self.set_perpetual_state(i, state);
                one_event(event)
            },
            None => no_event(),
        }
    }
}

impl Exchange {
    /// Applies an order-placed event.
    pub(crate) fn on_order_placed(
        &mut self,
        scratch: &TxScratch,
        instant: StateInstant,
        order_id: u16,
        lot_lns: u128,
        locked_balance_cns: u128,
    ) -> (r: Result<Vec<StateEvent>, DexError>)
        requires
            old(self).wf(),
        ensures
            final(self).chain == old(self).chain,
            matches_step(
                order_placed(old(self)@, scratch@, instant, order_id, lot_lns, locked_balance_cns),
                r,
                *final(self),
                scratch@,
            ),
    {
        if order_id == 0 {
            return Err(DexError::InvalidOrderId);
        }
        let ctx = match scratch.order_context {
            Some(c) => c,
            None => {
                return Err(DexError::MissingOrderContext);
            },
        };
        let i = match self.find_perpetual(ctx.perpetual_id) {
            Some(i) => i,
            None => {
                return Ok(no_event());
            },
        };
        let ghost before = *self;
        let perp_state = self.perpetuals[i].state;
        let size = convert(perp_state.size_converter, lot_lns);
        let locked = convert(self.state.collateral_converter, locked_balance_cns);
        let (size, locked) = match (size, locked) {
            (Ok(s), Ok(l)) => (s, l),
            _ => {
                return Err(DexError::NumericOverflow);
            },
        };
        let order = match Order::placed(
            instant,
            &ctx,
            order_id,
            size,
            perp_state.price_converter,
            perp_state.leverage_converter,
        ) {
            Ok(o) => o,
            Err(e) => {
                return Err(e);
            },
        };
        assert(self.perpetuals@[i as int].wf());
        match self.perpetuals[i].add_order(order) {
            Ok(_) => {},
            Err(e) => {
                return Err(e);
            },
        }
        proof {
            lemma_with_perp(before, *self, i as int);
        }
        if order.order_type.is_opening() {
            self.lock(instant, order.account_id, locked);
        }
        Ok(
            one_event(
                StateEvent::OrderPlaced(
                    OrderEvent {
                        perpetual_id: ctx.perpetual_id,
                        request_id: Some(ctx.request_id),
                        order,
                    },
                ),
            ),
        )
    }

    /// Applies an order-changed event.
    pub(crate) fn on_order_changed(
        &mut self,
        scratch: &TxScratch,
        instant: StateInstant,
        order_id: u16,
        price_pns: u128,
        lot_lns: u128,
        expiry_block: u64,
        locked_balance_cns: u128,
    ) -> (r: Result<Vec<StateEvent>, DexError>)
        requires
            old(self).wf(),
        ensures
            final(self).chain == old(self).chain,
            matches_step(
                order_changed(
                    old(self)@,
                    scratch@,
                    instant,
                    order_id,
                    price_pns,
                    lot_lns,
                    expiry_block,
                    locked_balance_cns,
                ),
                r,
                *final(self),
                scratch@,
            ),
    {
        if order_id == 0 {
            return Err(DexError::InvalidOrderId);
        }
        let ctx = match scratch.order_context {
            Some(c) => c,
            None => {
                return Err(DexError::MissingOrderContext);
            },
        };
        let i = match self.find_perpetual(ctx.perpetual_id) {
            Some(i) => i,
            None => {
                return Ok(no_event());
            },
        };
        let ghost before = *self;
        let perp_state = self.perpetuals[i].state;
        let price = convert(perp_state.price_converter, price_pns);
        let size = convert(perp_state.size_converter, lot_lns);
        let locked = convert(self.state.collateral_converter, locked_balance_cns);
        let (price, size, locked) = match (price, size, locked) {
            (Ok(p), Ok(s), Ok(l)) => (p, s, l),
            _ => {
                return Err(DexError::NumericOverflow);
            },
        };
        let existing = match self.perpetuals[i].get_order(order_id) {
            Some(o) => o,
            None => {
                return Err(DexError::OrderNotFound(ctx.perpetual_id, order_id));
            },
        };
        let order = existing.updated(
            instant,
            &Some(ctx),
            Some(price),
            Some(size),
            Some(size),
            Some(expiry_block),
        );
        assert(self.perpetuals@[i as int].wf());
        match self.perpetuals[i].update_order(order) {
            Ok(_) => {},
            Err(e) => {
                return Err(e);
            },
        }
        proof {
            lemma_with_perp(before, *self, i as int);
        }
        if order.order_type.is_opening() {
            self.lock(instant, order.account_id, locked);
        }
        Ok(
            one_event(
                StateEvent::OrderChanged(
                    OrderEvent {
                        perpetual_id: ctx.perpetual_id,
                        request_id: Some(ctx.request_id),
                        order,
                    },
                ),
            ),
        )
    }

    /// Applies an order-cancelled event.
    pub(crate) fn on_order_cancelled(
        &mut self,
        scratch: &TxScratch,
        instant: StateInstant,
        order_id: u16,
        locked_balance_cns: u128,
    ) -> (r: Result<Vec<StateEvent>, DexError>)
        requires
            old(self).wf(),
        ensures
            final(self).chain == old(self).chain,
            matches_step(
                order_cancelled(old(self)@, scratch@, instant, order_id, locked_balance_cns),
                r,
                *final(self),
                scratch@,
            ),
    {
        if order_id == 0 {
            return Err(DexError::InvalidOrderId);
        }
        let ctx = match scratch.order_context {
            Some(c) => c,
            None => {
                return Err(DexError::MissingOrderContext);
            },
        };
        let i = match self.find_perpetual(ctx.perpetual_id) {
            Some(i) => i,
            None => {
                return Ok(no_event());
            },
        };
        let ghost before = *self;
        let locked = match convert(self.state.collateral_converter, locked_balance_cns) {
            Ok(l) => l,
            Err(e) => {
                return Err(e);
            },
        };
        assert(self.perpetuals@[i as int].wf());
        let order = match self.perpetuals[i].remove_order(order_id) {
            Ok(o) => o,
            Err(e) => {
                return Err(e);
            },
        };
        proof {
            lemma_with_perp(before, *self, i as int);
        }
        if order.order_type.is_opening() && order.account_id == ctx.account_id {
            self.lock(instant, order.account_id, locked);
        }
        Ok(
            one_event(
                StateEvent::OrderCancelled(
                    OrderEvent {
                        perpetual_id: ctx.perpetual_id,
                        request_id: Some(ctx.request_id),
                        order,
                    },
                ),
            ),
        )
    }
}

/// Whether every pending maker fill comes from the transaction `tx_hash`.
pub(crate) fn all_from(pending: &Vec<PendingFill>, tx_hash: crate::types::TxHash) -> (r: bool)
    ensures
        r == same_transaction(pending@, tx_hash),
{
    let mut i: usize = 0;
    while i < pending.len()
        invariant
            0 <= i <= pending@.len(),
            forall|j: int| 0 <= j < i ==> (#[trigger] pending@[j]).tx_hash == tx_hash,
        decreases pending@.len() - i,
    {
        if pending[i].tx_hash != tx_hash {
            return false;
        }
        i = i + 1;
    }
    true
}

/// The fills of the pending maker fills, in their order.
pub(crate) fn fills_of(pending: &Vec<PendingFill>) -> (r: Vec<MakerFill>)
    ensures
        r@ == pending_fills(pending@),
{
    let mut fills: Vec<MakerFill> = Vec::new();
    let mut i: usize = 0;
    while i < pending.len()
        invariant
            0 <= i <= pending@.len(),
            fills@.len() == i,
            forall|j: int| 0 <= j < i ==> fills@[j] == pending@[j].fill,
        decreases pending@.len() - i,
    {
        fills.push(pending[i].fill);
        i = i + 1;
    }
    assert(fills@ =~= pending_fills(pending@));
    fills
}

impl Exchange {
    /// Applies a maker-order-filled event.
    pub(crate) fn on_maker_filled(
        &mut self,
        scratch: &mut TxScratch,
        instant: StateInstant,
        raw: &EventContext<ExchangeEvent>,
    ) -> (r: Result<Vec<StateEvent>, DexError>)
        requires
            old(self).wf(),
            raw.event is MakerOrderFilled,
        ensures
            final(self).chain == old(self).chain,
            matches_step(
                maker_filled(old(self)@, old(scratch)@, instant, *raw),
                r,
                *final(self),
                final(scratch)@,
            ),
    {
        match raw.event {
            ExchangeEvent::MakerOrderFilled {
                perpetual_id,
                account_id,
                order_id,
                price_pns,
                lot_lns,
                fee_cns,
            } => {
                if order_id == 0 {
                    return Err(DexError::InvalidOrderId);
                }
                let i = match self.find_perpetual(perpetual_id) {
                    Some(i) => i,
                    None => {
                        return Ok(no_event());
                    },
                };
                let ghost before = *self;
                let perp_state = self.perpetuals[i].state;
                let price = convert(perp_state.price_converter, price_pns);
                let size = convert(perp_state.size_converter, lot_lns);
                let fee = convert(self.state.collateral_converter, fee_cns);
                let (price, size, fee) = match (price, size, fee) {
                    (Ok(p), Ok(s), Ok(f)) => (p, s, f),
                    _ => {
                        return Err(DexError::NumericOverflow);
                    },
                };
                let existing = match self.perpetuals[i].get_order(order_id) {
                    Some(o) => o,
                    None => {
                        return Err(DexError::OrderNotFound(perpetual_id, order_id));
                    },
                };
                if size.units > existing.size.units {
                    return Err(DexError::InvalidEvent);
                }
                assert(self.perpetuals@[i as int].wf());
                proof {
                    self.perpetuals@[i as int].book.lemma_order_id(order_id);
                }
                let order = existing.updated(
                    instant,
                    &scratch.order_context,
                    None,
                    Some(Decimal { units: existing.size.units - size.units }),
                    None,
                    None,
                );
                if size.units == existing.size.units {
                    match self.perpetuals[i].remove_order(order_id) {
                        Ok(_) => {},
                        Err(e) => {
                            return Err(e);
                        },
                    }
                } else {
                    match self.perpetuals[i].update_order(order) {
                        Ok(_) => {},
                        Err(e) => {
                            return Err(e);
                        },
                    }
                }
                proof {
                    lemma_with_perp(before, *self, i as int);
                }
                match self.fill_position(
                    instant,
                    i,
                    existing.account_id,
                    existing.side(),
                    price,
                    size,
                ) {
                    Ok(_) => {},
                    Err(e) => {
                        return Err(e);
                    },
                }
                match scratch.order_context {
                    Some(ctx) => {
                        match self.fill_position(
                            instant,
                            i,
                            ctx.account_id,
                            existing.side().opposite(),
                            price,
                            size,
                        ) {
                            Ok(_) => {},
                            Err(e) => {
                                return Err(e);
                            },
                        }
                    },
                    None => {},
                }
                scratch.pending_maker_fills.push(
                    PendingFill {
                        tx_hash: raw.tx_hash,
                        perpetual_id,
                        fill: MakerFill {
                            log_index: raw.log_index,
                            maker_account_id: account_id,
                            maker_order_id: order_id,
                            price,
                            size,
                            fee,
                        },
                    },
                );
                Ok(
                    one_event(
                        StateEvent::MakerFilled {
                            order: OrderEvent {
                                perpetual_id,
                                request_id: match scratch.order_context {
                                    Some(c) => Some(c.request_id),
                                    None => None,
                                },
                                order,
                            },
                            price,
                            size,
                            fee,
                        },
                    ),
                )
            },
            _ => {
                assert(false);
                Err(DexError::InvalidEvent)
            },
        }
    }

    /// Applies a taker-order-filled event.
    pub(crate) fn on_taker_filled(
        &self,
        scratch: &mut TxScratch,
        raw: &EventContext<ExchangeEvent>,
    ) -> (r: Result<Vec<StateEvent>, DexError>)
        requires
            self.wf(),
            raw.event is TakerOrderFilled,
        ensures
            matches_step(taker_filled(self@, old(scratch)@, *raw), r, *self, final(scratch)@),
    {
        match raw.event {
            ExchangeEvent::TakerOrderFilled { fee_cns } => {
                let fee = match convert(self.state.collateral_converter, fee_cns) {
                    Ok(f) => f,
                    Err(e) => {
                        return Err(e);
                    },
                };
                let mut makers: Vec<PendingFill> = Vec::new();
                core::mem::swap(&mut makers, &mut scratch.pending_maker_fills);
                assert(scratch@.pending =~= Seq::<PendingFill>::empty());
                let ctx = match scratch.order_context {
                    Some(c) => c,
                    None => {
                        return Ok(no_event());
                    },
                };
                let side = match ctx.side() {
                    Some(s) => s,
                    None => {
                        return Ok(no_event());
                    },
                };
                if self.find_perpetual(ctx.perpetual_id).is_none() {
                    return Ok(no_event());
                }
                let taker = StateEvent::TakerFilled {
                    perpetual_id: ctx.perpetual_id,
                    account_id: ctx.account_id,
                    request_id: Some(ctx.request_id),
                    side,
                    fee,
                };
                let mut events: Vec<StateEvent> = Vec::new();
                events.push(taker);
                if makers.len() > 0 && all_from(&makers, raw.tx_hash) {
                    let trade = Trade {
                        perpetual_id: makers[0].perpetual_id,
                        taker_account_id: ctx.account_id,
                        taker_side: side,
                        taker_fee: fee,
                        maker_fills: fills_of(&makers),
                    };
                    events.push(StateEvent::Trade(trade));
                    assert(event_models(events@) =~= Seq::<EventModel>::empty().push(
                        EventModel::Plain(taker),
                    ).push(EventModel::Trade(trade@)));
                } else {
                    assert(event_models(events@) =~= Seq::<EventModel>::empty().push(
                        EventModel::Plain(taker),
                    ));
                }
                Ok(events)
            },
            _ => {
                assert(false);
                Err(DexError::InvalidEvent)
            },
        }
    }

    /// Applies an event about an account.
    pub(crate) fn on_account_event(
        &mut self,
        scratch: &TxScratch,
        instant: StateInstant,
        raw: &EventContext<ExchangeEvent>,
    ) -> (r: Result<Vec<StateEvent>, DexError>)
        requires
            old(self).wf(),
            raw.event is AccountCreated || raw.event is AccountFrozen || raw.event is BalanceChanged,
        ensures
            final(self).chain == old(self).chain,
            matches_step(
                apply_event(old(self)@, scratch@, instant, *raw),
                r,
                *final(self),
                scratch@,
            ),
    {
        let ghost before = *self;
        match raw.event {
            ExchangeEvent::AccountCreated { account_id, address } => {
                match self.find_account(account_id) {
                    Some(i) => {
                        self.accounts[i].update_address(instant, address);
                        proof {
                            assert(before.accounts@[i as int].wf());
                            lemma_with_account(before, *self, i as int);
                        }
                    },
                    None => {
                        let account = Account::from_event(instant, account_id, address);
                        let r = self.insert_account(account);
                    },
                }
                Ok(one_event(StateEvent::AccountCreated { account_id, address }))
            },
            ExchangeEvent::AccountFrozen { account_id, frozen } => {
                match self.find_account(account_id) {
                    Some(i) => {
                        self.accounts[i].update_frozen(instant, frozen);
                        proof {
                            assert(before.accounts@[i as int].wf());
                            lemma_with_account(before, *self, i as int);
                        }
                        Ok(one_event(StateEvent::AccountFrozen { account_id, frozen }))
                    },
                    None => Ok(no_event()),
                }
            },
            ExchangeEvent::BalanceChanged { account_id, balance_cns } => {
                let balance = match convert(self.state.collateral_converter, balance_cns) {
                    Ok(b) => b,
                    Err(e) => {
                        return Err(e);
                    },
                };
                match self.find_account(account_id) {
                    Some(i) => {
                        self.accounts[i].update_balance(instant, balance);
                        proof {
                            assert(before.accounts@[i as int].wf());
                            lemma_with_account(before, *self, i as int);
                        }
                        Ok(one_event(StateEvent::AccountBalanceChanged { account_id, balance }))
                    },
                    None => Ok(no_event()),
                }
            },
            _ => {
                assert(false);
                Err(DexError::InvalidEvent)
            },
        }
    }

    /// Applies a price update of a perpetual contract.
    pub(crate) fn on_price_event(
        &mut self,
        scratch: &TxScratch,
        instant: StateInstant,
        raw: &EventContext<ExchangeEvent>,
    ) -> (r: Result<Vec<StateEvent>, DexError>)
        requires
            old(self).wf(),
            raw.event is MarkPriceUpdated || raw.event is OraclePriceUpdated || raw.event is LastPriceUpdated,
        ensures
            final(self).chain == old(self).chain,
            matches_step(
                apply_event(old(self)@, scratch@, instant, *raw),
                r,
                *final(self),
                scratch@,
            ),
    {

        match raw.event {
            ExchangeEvent::MarkPriceUpdated { perpetual_id, price_pns } => {
                let i = match self.find_perpetual(perpetual_id) {
                    Some(i) => i,
                    None => {
                        return Ok(no_event());
                    },
                };
                let state = self.perpetuals[i].state;
                let price = match convert(state.price_converter, price_pns) {
                    Ok(v) => v,
                    Err(e) => {
                        return Err(e);
                    },
                };
                Ok(
                    self.on_perp_changed(
                        perpetual_id,
                        PerpetualState {
                            instant,
                            mark_price: price,
                            mark_price_block: Some(instant.block_number),
                            mark_price_timestamp: instant.block_timestamp,
                            ..state
                        },
                        StateEvent::MarkPriceUpdated { perpetual_id, price },
                    ),
                )
            },
            ExchangeEvent::OraclePriceUpdated { perpetual_id, price_pns } => {
                let i = match self.find_perpetual(perpetual_id) {
                    Some(i) => i,
                    None => {
                        return Ok(no_event());
                    },
                };
                let state = self.perpetuals[i].state;
                let price = match convert(state.price_converter, price_pns) {
                    Ok(v) => v,
                    Err(e) => {
                        return Err(e);
                    },
                };
                Ok(
                    self.on_perp_changed(
                        perpetual_id,
                        PerpetualState {
                            instant,
                            oracle_price: price,
                            oracle_price_block: Some(instant.block_number),
                            oracle_price_timestamp: instant.block_timestamp,
                            ..state
                        },
                        StateEvent::OraclePriceUpdated { perpetual_id, price },
                    ),
                )
            },
            ExchangeEvent::LastPriceUpdated { perpetual_id, price_pns } => {
                let i = match self.find_perpetual(perpetual_id) {
                    Some(i) => i,
                    None => {
                        return Ok(no_event());
                    },
                };
                let state = self.perpetuals[i].state;
                let price = match convert(state.price_converter, price_pns) {
                    Ok(v) => v,
                    Err(e) => {
                        return Err(e);
                    },
                };
                Ok(
                    self.on_perp_changed(
                        perpetual_id,
                        PerpetualState {
                            instant,
                            last_price: price,
                            last_price_block: Some(instant.block_number),
                            last_price_timestamp: instant.block_timestamp,
                            ..state
                        },
                        StateEvent::LastPriceUpdated { perpetual_id, price },
                    ),
                )
            },
            _ => {
                assert(false);
                Err(DexError::InvalidEvent)
            },
        }
    }

    /// Applies a change of a parameter of a perpetual contract.
    pub(crate) fn on_param_event(
        &mut self,
        scratch: &TxScratch,
        instant: StateInstant,
        raw: &EventContext<ExchangeEvent>,
    ) -> (r: Result<Vec<StateEvent>, DexError>)
        requires
            old(self).wf(),
            raw.event is PerpetualPaused || raw.event is MakerFeeChanged || raw.event is TakerFeeChanged || raw.event is InitialMarginChanged || raw.event is MaintenanceMarginChanged || raw.event is PriceMaxAgeChanged,
        ensures
            final(self).chain == old(self).chain,
            matches_step(
                apply_event(old(self)@, scratch@, instant, *raw),
                r,
                *final(self),
                scratch@,
            ),
    {

        match raw.event {
            ExchangeEvent::PerpetualPaused { perpetual_id, paused } => {
                let i = match self.find_perpetual(perpetual_id) {
                    Some(i) => i,
                    None => {
                        return Ok(no_event());
                    },
                };
                let state = self.perpetuals[i].state;
                Ok(
                    self.on_perp_changed(
                        perpetual_id,
                        PerpetualState { instant, is_paused: paused, ..state },
                        StateEvent::PerpetualPaused { perpetual_id, paused },
                    ),
                )
            },
            ExchangeEvent::MakerFeeChanged { perpetual_id, fee } => {
                let i = match self.find_perpetual(perpetual_id) {
                    Some(i) => i,
                    None => {
                        return Ok(no_event());
                    },
                };
                let state = self.perpetuals[i].state;
                let value = match convert(state.fee_converter, fee) {
                    Ok(v) => v,
                    Err(e) => {
                        return Err(e);
                    },
                };
                Ok(
                    self.on_perp_changed(
                        perpetual_id,
                        PerpetualState { instant, maker_fee: value, ..state },
                        StateEvent::MakerFeeChanged { perpetual_id, fee: value },
                    ),
                )
            },
            ExchangeEvent::TakerFeeChanged { perpetual_id, fee } => {
                let i = match self.find_perpetual(perpetual_id) {
                    Some(i) => i,
                    None => {
                        return Ok(no_event());
                    },
                };
                let state = self.perpetuals[i].state;
                let value = match convert(state.fee_converter, fee) {
                    Ok(v) => v,
                    Err(e) => {
                        return Err(e);
                    },
                };
                Ok(
                    self.on_perp_changed(
                        perpetual_id,
                        PerpetualState { instant, taker_fee: value, ..state },
                        StateEvent::TakerFeeChanged { perpetual_id, fee: value },
                    ),
                )
            },
            ExchangeEvent::InitialMarginChanged { perpetual_id, margin_hdths } => {
                let i = match self.find_perpetual(perpetual_id) {
                    Some(i) => i,
                    None => {
                        return Ok(no_event());
                    },
                };
                let state = self.perpetuals[i].state;
                let value = match convert(state.leverage_converter, margin_hdths) {
                    Ok(v) => v,
                    Err(e) => {
                        return Err(e);
                    },
                };
                Ok(
                    self.on_perp_changed(
                        perpetual_id,
                        PerpetualState { instant, initial_margin: value, ..state },
                        StateEvent::InitialMarginChanged { perpetual_id, margin: value },
                    ),
                )
            },
            ExchangeEvent::MaintenanceMarginChanged { perpetual_id, margin_hdths } => {
                let i = match self.find_perpetual(perpetual_id) {
                    Some(i) => i,
                    None => {
                        return Ok(no_event());
                    },
                };
                let state = self.perpetuals[i].state;
                let value = match convert(state.leverage_converter, margin_hdths) {
                    Ok(v) => v,
                    Err(e) => {
                        return Err(e);
                    },
                };
                Ok(
                    self.on_perp_changed(
                        perpetual_id,
                        PerpetualState { instant, maintenance_margin: value, ..state },
                        StateEvent::MaintenanceMarginChanged { perpetual_id, margin: value },
                    ),
                )
            },
            ExchangeEvent::PriceMaxAgeChanged { perpetual_id, max_age } => {
                let i = match self.find_perpetual(perpetual_id) {
                    Some(i) => i,
                    None => {
                        return Ok(no_event());
                    },
                };
                let state = self.perpetuals[i].state;
                Ok(
                    self.on_perp_changed(
                        perpetual_id,
                        PerpetualState { instant, price_max_age: max_age, ..state },
                        StateEvent::PriceMaxAgeChanged { perpetual_id, max_age },
                    ),
                )
            },
            _ => {
                assert(false);
                Err(DexError::InvalidEvent)
            },
        }
    }

    /// Applies one event of the exchange at the instant of its block. On an
    /// error the exchange may be left in between; the block is then given
    /// up as a whole.
    pub(crate) fn apply_event(
        &mut self,
        scratch: &mut TxScratch,
        instant: StateInstant,
        raw: &EventContext<ExchangeEvent>,
    ) -> (r: Result<Vec<StateEvent>, DexError>)
        requires
            old(self).wf(),
        ensures
            final(self).chain == old(self).chain,
            matches_step(
                apply_event(old(self)@, old(scratch)@, instant, *raw),
                r,
                *final(self),
                final(scratch)@,
            ),
    {
        match raw.event {
            ExchangeEvent::AccountCreated { .. }
            | ExchangeEvent::AccountFrozen { .. }
            | ExchangeEvent::BalanceChanged { .. } => self.on_account_event(scratch, instant, raw),
            ExchangeEvent::MarkPriceUpdated { .. }
            | ExchangeEvent::OraclePriceUpdated { .. }
            | ExchangeEvent::LastPriceUpdated { .. } => self.on_price_event(scratch, instant, raw),
            ExchangeEvent::PerpetualPaused { .. }
            | ExchangeEvent::MakerFeeChanged { .. }
            | ExchangeEvent::TakerFeeChanged { .. }
            | ExchangeEvent::InitialMarginChanged { .. }
            | ExchangeEvent::MaintenanceMarginChanged { .. }
            | ExchangeEvent::PriceMaxAgeChanged { .. } => self.on_param_event(scratch, instant, raw),
            ExchangeEvent::OrderRequest {
                account_id,
                request_id,
                perpetual_id,
                request_type,
                order_id,
                price_pns,
                lot_lns,
                expiry_block,
                leverage_hdths,
                post_only,
                fill_or_kill,
                immediate_or_cancel,
            } => {
                scratch.order_context = match RequestType::from_u8(request_type) {
                    Some(request_type) => Some(
                        OrderContext {
                            account_id,
                            request_id,
                            perpetual_id,
                            request_type,
                            order_id,
                            price_pns,
                            lot_lns,
                            expiry_block,
                            leverage_hdths,
                            post_only,
                            fill_or_kill,
                            immediate_or_cancel,
                        },
                    ),
                    None => None,
                };
                Ok(no_event())
            },
            ExchangeEvent::OrderPlaced { order_id, lot_lns, locked_balance_cns } => {
                self.on_order_placed(scratch, instant, order_id, lot_lns, locked_balance_cns)
            },
            ExchangeEvent::OrderChanged {
                order_id,
                price_pns,
                lot_lns,
                expiry_block,
                locked_balance_cns,
            } => {
                self.on_order_changed(
                    scratch,
                    instant,
                    order_id,
                    price_pns,
                    lot_lns,
                    expiry_block,
                    locked_balance_cns,
                )
            },
            ExchangeEvent::OrderCancelled { order_id, locked_balance_cns } => {
                self.on_order_cancelled(scratch, instant, order_id, locked_balance_cns)
            },
            ExchangeEvent::MakerOrderFilled { .. } => self.on_maker_filled(scratch, instant, raw),
            ExchangeEvent::TakerOrderFilled { .. } => self.on_taker_filled(scratch, raw),
            ExchangeEvent::OrderBatchCompleted => {
                scratch.order_context = None;
                scratch.pending_maker_fills = Vec::new();
                assert(scratch@.pending =~= Seq::<PendingFill>::empty());
                Ok(no_event())
            },
            ExchangeEvent::ExchangeHalted => {
                self.state.is_halted = true;
                Ok(no_event())
            },
            ExchangeEvent::ExchangeResumed => {
                self.state.is_halted = false;
                Ok(no_event())
            },
            ExchangeEvent::Other => Ok(no_event()),
        }
    }
}

} // verus!
