//! What the events of the exchange do to the replica, stated over its
//! mathematical values.

use vstd::prelude::*;

use crate::error::DexError;
use crate::num::{Converter, Decimal};
use crate::state::account::AccountModel;
use crate::state::keyed::{has_key, key_index};
use crate::state::order::Order;
use crate::state::perpetual::{PerpModel, PerpetualState};
use crate::state::position::{units_or_overflow, Position};
use crate::types::event::{EventContext, ExchangeEvent, OrderContext, OrderEvent, StateEvent};
use crate::types::order::OrderSide;
use crate::types::request::RequestType;
use crate::types::trade::{MakerFill, Trade};
use crate::types::{AccountId, Address, PerpetualId, StateInstant, TxHash};

verus! {

/// Exchange-wide parameters and the instant the replica stands at.
#[derive(Clone, Copy, Debug, PartialEq, Eq, Structural)]
pub struct ExchangeState {
    pub instant: StateInstant,
    pub collateral_converter: Converter,
    pub funding_interval_blocks: u32,
    pub min_post: Decimal,
    pub min_settle: Decimal,
    pub recycle_fee: Decimal,
    pub is_halted: bool,
}

/// The replica as a mathematical value: perpetual contracts and accounts in
/// the order in which they came to be known.
pub struct ExchangeModel {
    pub state: ExchangeState,
    pub perpetuals: Seq<PerpModel>,
    pub accounts: Seq<AccountModel>,
}

/// A maker fill that waits for the taker fill that closes its trade.
#[derive(Clone, Copy, Debug, PartialEq, Eq, Structural)]
pub struct PendingFill {
    pub tx_hash: TxHash,
    pub perpetual_id: PerpetualId,
    pub fill: MakerFill,
}

/// What the engine remembers within one transaction.
pub struct Scratch {
    pub order_context: Option<OrderContext>,
    pub pending: Seq<PendingFill>,
    pub prev_tx_index: Option<u64>,
}

/// A trade as a mathematical value.
pub struct TradeModel {
    pub perpetual_id: PerpetualId,
    pub taker_account_id: AccountId,
    pub taker_side: OrderSide,
    pub taker_fee: Decimal,
    pub maker_fills: Seq<MakerFill>,
}

/// A state event as a mathematical value: a trade with its fills as a
/// sequence, or any other event as it is.
pub enum EventModel {
    Plain(StateEvent),
    Trade(TradeModel),
}

/// The state events that one event of the exchange gave rise to.
pub struct GroupModel {
    pub tx_hash: TxHash,
    pub tx_index: u64,
    pub log_index: u64,
    pub events: Seq<EventModel>,
}

/// The outcome of one event of the exchange.
pub struct Step {
    pub model: ExchangeModel,
    pub scratch: Scratch,
    pub events: Seq<EventModel>,
}

/// The outcome of the events of a block so far.
pub struct Run {
    pub model: ExchangeModel,
    pub scratch: Scratch,
    pub groups: Seq<GroupModel>,
}

impl View for Trade {
    type V = TradeModel;

    open spec fn view(&self) -> TradeModel {
        TradeModel {
            perpetual_id: self.perpetual_id,
            taker_account_id: self.taker_account_id,
            taker_side: self.taker_side,
            taker_fee: self.taker_fee,
            maker_fills: self.maker_fills@,
        }
    }
}

impl View for StateEvent {
    type V = EventModel;

    open spec fn view(&self) -> EventModel {
        match *self {
            StateEvent::Trade(t) => EventModel::Trade(t@),
            _ => EventModel::Plain(*self),
        }
    }
}

/// The values of the state events, in their order.
pub open spec fn event_models(events: Seq<StateEvent>) -> Seq<EventModel> {
    Seq::new(events.len(), |i: int| events[i]@)
}

/// The value of a group of state events.
pub open spec fn group_model(group: EventContext<Vec<StateEvent>>) -> GroupModel {
    GroupModel {
        tx_hash: group.tx_hash,
        tx_index: group.tx_index,
        log_index: group.log_index,
        events: event_models(group.event@),
    }
}

/// The values of the groups, in their order.
pub open spec fn group_models(groups: Seq<EventContext<Vec<StateEvent>>>) -> Seq<GroupModel> {
    Seq::new(groups.len(), |i: int| group_model(groups[i]))
}

/// The IDs of the perpetual contracts, in their order.
pub open spec fn perp_keys(perpetuals: Seq<PerpModel>) -> Seq<u32> {
    Seq::new(perpetuals.len(), |i: int| perpetuals[i].state.id)
}

/// The IDs of the accounts, in their order.
pub open spec fn account_keys(accounts: Seq<AccountModel>) -> Seq<u32> {
    Seq::new(accounts.len(), |i: int| accounts[i].id)
}

/// The fills of the pending maker fills, in their order.
pub open spec fn pending_fills(pending: Seq<PendingFill>) -> Seq<MakerFill> {
    Seq::new(pending.len(), |i: int| pending[i].fill)
}

/// Whether every pending maker fill comes from the transaction `tx_hash`.
pub open spec fn same_transaction(pending: Seq<PendingFill>, tx_hash: TxHash) -> bool {
    forall|i: int| 0 <= i < pending.len() ==> (#[trigger] pending[i]).tx_hash == tx_hash
}

/// The request ID of the order context, if there is one.
pub open spec fn context_request(ctx: Option<OrderContext>) -> Option<u64> {
    match ctx {
        Some(c) => Some(c.request_id),
        None => None,
    }
}

impl Scratch {
    /// Nothing is remembered.
    pub open spec fn empty() -> Scratch {
        Scratch { order_context: None, pending: Seq::empty(), prev_tx_index: None }
    }

    /// What is left at the start of the event of transaction `tx_index`: the
    /// order context and the pending fills are forgotten when the
    /// transaction is a later one than that of the event before.
    pub open spec fn entering(&self, tx_index: u64) -> Scratch {
        match self.prev_tx_index {
            Some(prev) => if prev < tx_index {
                Scratch { order_context: None, pending: Seq::empty(), ..*self }
            } else {
                *self
            },
            None => *self,
        }
    }
}

impl ExchangeModel {
    /// Whether the replica follows the perpetual contract.
    pub open spec fn has_perp(&self, id: PerpetualId) -> bool {
        has_key(perp_keys(self.perpetuals), id)
    }

    /// Where the perpetual contract stands among the contracts.
    pub open spec fn perp_index(&self, id: PerpetualId) -> int {
        key_index(perp_keys(self.perpetuals), id)
    }

    /// Whether the replica knows the account.
    pub open spec fn has_account(&self, id: AccountId) -> bool {
        has_key(account_keys(self.accounts), id)
    }

    /// Where the account stands among the accounts.
    pub open spec fn account_index(&self, id: AccountId) -> int {
        key_index(account_keys(self.accounts), id)
    }

    /// The perpetual contract, where the replica follows it.
    pub open spec fn perp(&self, id: PerpetualId) -> Option<PerpModel> {
        if self.has_perp(id) {
            Some(self.perpetuals[self.perp_index(id)])
        } else {
            None
        }
    }

    /// The account, where the replica knows it.
    pub open spec fn account(&self, id: AccountId) -> Option<AccountModel> {
        if self.has_account(id) {
            Some(self.accounts[self.account_index(id)])
        } else {
            None
        }
    }

    /// The replica with the perpetual contract `id` replaced by `perp`.
    pub open spec fn with_perp(&self, id: PerpetualId, perp: PerpModel) -> ExchangeModel {
        ExchangeModel { perpetuals: self.perpetuals.update(self.perp_index(id), perp), ..*self }
    }

    /// The replica with the state of the perpetual contract `id` replaced,
    /// if the replica follows the contract.
    pub open spec fn with_perp_state(&self, id: PerpetualId, state: PerpetualState) -> ExchangeModel {
        if self.has_perp(id) {
            self.with_perp(id, PerpModel { state, ..self.perpetuals[self.perp_index(id)] })
        } else {
            *self
        }
    }

    /// The replica with the account `id` replaced by `account`.
    pub open spec fn with_account(&self, id: AccountId, account: AccountModel) -> ExchangeModel {
        ExchangeModel { accounts: self.accounts.update(self.account_index(id), account), ..*self }
    }

    /// The replica after the account's locked balance has been set, if the
    /// replica knows the account.
    pub open spec fn lock(&self, instant: StateInstant, id: AccountId, locked_balance: Decimal) -> ExchangeModel {
        if self.has_account(id) {
            self.with_account(
                id,
                AccountModel { instant, locked_balance, ..self.accounts[self.account_index(id)] },
            )
        } else {
            *self
        }
    }

    /// The position of the account in the perpetual contract.
    pub open spec fn position(&self, account_id: AccountId, perpetual_id: PerpetualId) -> Option<
        Position,
    > {
        if self.has_account(account_id) {
            self.accounts[self.account_index(account_id)].position(perpetual_id)
        } else {
            None
        }
    }

    /// The replica with the position of the account in the perpetual
    /// contract set to `position`. An account that the replica does not know
    /// joins, known by its ID only, when it gets a position.
    pub open spec fn with_position(
        &self,
        instant: StateInstant,
        account_id: AccountId,
        perpetual_id: PerpetualId,
        position: Option<Position>,
    ) -> ExchangeModel {
        if self.has_account(account_id) {
            self.with_account(
                account_id,
                self.accounts[self.account_index(account_id)].with_position(
                    instant,
                    perpetual_id,
                    position,
                ),
            )
        } else {
            match position {
                Some(p) => ExchangeModel {
                    accounts: self.accounts.push(
                        AccountModel::from_event(instant, account_id, Address::spec_zero()).with_position(
                            instant,
                            perpetual_id,
                            Some(p),
                        ),
                    ),
                    ..*self
                },
                None => *self,
            }
        }
    }

    /// The replica after the account has bought or sold `size` at `price`
    /// in the perpetual contract `perpetual_id`, which the replica follows:
    /// the account's position moves as [`Position::spec_filled`] says, and
    /// the contract's open interest moves with the position's long size.
    pub open spec fn fill_position(
        &self,
        instant: StateInstant,
        perpetual_id: PerpetualId,
        account_id: AccountId,
        side: OrderSide,
        price: Decimal,
        size: Decimal,
    ) -> Result<ExchangeModel, DexError> {
        let current = self.position(account_id, perpetual_id);
        match Position::spec_filled(current, instant, perpetual_id, account_id, side, price, size) {
            Err(e) => Err(e),
            Ok(next) => match self.perpetuals[self.perp_index(perpetual_id)].update_open_interest(
                instant,
                Position::spec_long_size(current),
                Position::spec_long_size(next),
            ) {
                Err(e) => Err(e),
                Ok(perp) => Ok(
                    self.with_perp(perpetual_id, perp).with_position(
                        instant,
                        account_id,
                        perpetual_id,
                        next,
                    ),
                ),
            },
        }
    }

    /// An account was created: it joins the accounts, or, if the replica
    /// knows it already, gets its address.
    pub open spec fn account_created(&self, instant: StateInstant, id: AccountId, address: Address) -> ExchangeModel {
        if self.has_account(id) {
            self.with_account(
                id,
                AccountModel { instant, address, ..self.accounts[self.account_index(id)] },
            )
        } else {
            ExchangeModel {
                accounts: self.accounts.push(AccountModel::from_event(instant, id, address)),
                ..*self
            }
        }
    }
}

/// The outcome of an event that changes nothing and reports nothing.
pub open spec fn unchanged(model: ExchangeModel, scratch: Scratch) -> Result<Step, DexError> {
    Ok(Step { model, scratch, events: Seq::empty() })
}

/// The outcome of an event that reports one state event.
pub open spec fn reported(model: ExchangeModel, scratch: Scratch, event: StateEvent) -> Result<
    Step,
    DexError,
> {
    Ok(Step { model, scratch, events: Seq::empty().push(EventModel::Plain(event)) })
}

/// An order request opens: its context is remembered, if its type is one the
/// engine knows.
pub open spec fn order_requested(model: ExchangeModel, scratch: Scratch, event: ExchangeEvent) -> Result<
    Step,
    DexError,
>
    recommends
        event is OrderRequest,
{
    let ctx = match RequestType::spec_from_u8(event->request_type) {
        Some(request_type) => Some(
            OrderContext {
                account_id: event->OrderRequest_account_id,
                request_id: event->request_id,
                perpetual_id: event->OrderRequest_perpetual_id,
                request_type,
                order_id: event->OrderRequest_order_id,
                price_pns: event->OrderRequest_price_pns,
                lot_lns: event->OrderRequest_lot_lns,
                expiry_block: event->OrderRequest_expiry_block,
                leverage_hdths: event->leverage_hdths,
                post_only: event->post_only,
                fill_or_kill: event->fill_or_kill,
                immediate_or_cancel: event->immediate_or_cancel,
            },
        ),
        None => None,
    };
    unchanged(model, Scratch { order_context: ctx, ..scratch })
}

/// An order was placed: it joins the book of the request's perpetual
/// contract, and its account's locked balance follows if the order is an
/// opening one.
pub open spec fn order_placed(
    model: ExchangeModel,
    scratch: Scratch,
    instant: StateInstant,
    order_id: u16,
    lot_lns: u128,
    locked_balance_cns: u128,
) -> Result<Step, DexError> {
    if order_id == 0 {
        Err(DexError::InvalidOrderId)
    } else {
        match scratch.order_context {
            None => Err(DexError::MissingOrderContext),
            Some(ctx) => match model.perp(ctx.perpetual_id) {
                None => unchanged(model, scratch),
                Some(perp) => match (
                    units_or_overflow(perp.state.size_converter.units_of(lot_lns as nat)),
                    units_or_overflow(
                        model.state.collateral_converter.units_of(locked_balance_cns as nat),
                    ),
                ) {
                    (Ok(size), Ok(locked)) => match Order::spec_placed(
                        instant,
                        ctx,
                        order_id,
                        size,
                        perp.state.price_converter,
                        perp.state.leverage_converter,
                    ) {
                        Err(e) => Err(e),
                        Ok(order) => match perp.add_order(order) {
                            Err(e) => Err(e),
                            Ok(after) => {
                                let placed = model.with_perp(ctx.perpetual_id, after);
                                reported(
                                    if order.order_type.spec_is_opening() {
                                        placed.lock(instant, order.account_id, locked)
                                    } else {
                                        placed
                                    },
                                    scratch,
                                    StateEvent::OrderPlaced(
                                        OrderEvent {
                                            perpetual_id: ctx.perpetual_id,
                                            request_id: Some(ctx.request_id),
                                            order,
                                        },
                                    ),
                                )
                            },
                        },
                    },
                    _ => Err(DexError::NumericOverflow),
                },
            },
        }
    }
}

/// An order was changed: it gets its new price, size and expiry, keeps its
/// place in the queue while the price stays, and its account's locked
/// balance follows if the order is an opening one.
pub open spec fn order_changed(
    model: ExchangeModel,
    scratch: Scratch,
    instant: StateInstant,
    order_id: u16,
    price_pns: u128,
    lot_lns: u128,
    expiry_block: u64,
    locked_balance_cns: u128,
) -> Result<Step, DexError> {
    if order_id == 0 {
        Err(DexError::InvalidOrderId)
    } else {
        match scratch.order_context {
            None => Err(DexError::MissingOrderContext),
            Some(ctx) => match model.perp(ctx.perpetual_id) {
                None => unchanged(model, scratch),
                Some(perp) => match (
                    units_or_overflow(perp.state.price_converter.units_of(price_pns as nat)),
                    units_or_overflow(perp.state.size_converter.units_of(lot_lns as nat)),
                    units_or_overflow(
                        model.state.collateral_converter.units_of(locked_balance_cns as nat),
                    ),
                ) {
                    (Ok(price), Ok(size), Ok(locked)) => if !perp.book.orders.contains_key(order_id) {
                        Err(DexError::OrderNotFound(ctx.perpetual_id, order_id))
                    } else {
                        let order = perp.book.orders[order_id].spec_updated(
                            instant,
                            Some(ctx),
                            Some(price),
                            Some(size),
                            Some(size),
                            Some(expiry_block),
                        );
                        match perp.update_order(order) {
                            Err(e) => Err(e),
                            Ok(after) => {
                                let changed = model.with_perp(ctx.perpetual_id, after);
                                reported(
                                    if order.order_type.spec_is_opening() {
                                        changed.lock(instant, order.account_id, locked)
                                    } else {
                                        changed
                                    },
                                    scratch,
                                    StateEvent::OrderChanged(
                                        OrderEvent {
                                            perpetual_id: ctx.perpetual_id,
                                            request_id: Some(ctx.request_id),
                                            order,
                                        },
                                    ),
                                )
                            },
                        }
                    },
                    _ => Err(DexError::NumericOverflow),
                },
            },
        }
    }
}

/// An order was cancelled: it leaves the book, and its account's locked
/// balance follows if the order is an opening one that its own account
/// cancels.
pub open spec fn order_cancelled(
    model: ExchangeModel,
    scratch: Scratch,
    instant: StateInstant,
    order_id: u16,
    locked_balance_cns: u128,
) -> Result<Step, DexError> {
    if order_id == 0 {
        Err(DexError::InvalidOrderId)
    } else {
        match scratch.order_context {
            None => Err(DexError::MissingOrderContext),
            Some(ctx) => match model.perp(ctx.perpetual_id) {
                None => unchanged(model, scratch),
                Some(perp) => match units_or_overflow(
                    model.state.collateral_converter.units_of(locked_balance_cns as nat),
                ) {
                    Err(e) => Err(e),
                    Ok(locked) => match perp.remove_order(order_id) {
                        Err(e) => Err(e),
                        Ok((after, order)) => {
                            let cancelled = model.with_perp(ctx.perpetual_id, after);
                            reported(
                                if order.order_type.spec_is_opening() && order.account_id
                                    == ctx.account_id {
                                    cancelled.lock(instant, order.account_id, locked)
                                } else {
                                    cancelled
                                },
                                scratch,
                                StateEvent::OrderCancelled(
                                    OrderEvent {
                                        perpetual_id: ctx.perpetual_id,
                                        request_id: Some(ctx.request_id),
                                        order,
                                    },
                                ),
                            )
                        },
                    },
                },
            },
        }
    }
}

/// The perpetual contract after `size` of the resting order `existing` has
/// been filled: the order shrinks in place, or leaves the book, vacating its
/// ID, when nothing is left of it. With the contract comes the order as it
/// stands after the fill.
pub open spec fn maker_order_after(
    perp: PerpModel,
    existing: Order,
    instant: StateInstant,
    ctx: Option<OrderContext>,
    size: Decimal,
) -> Result<(PerpModel, Order), DexError> {
    let order = existing.spec_updated(
        instant,
        ctx,
        None,
        Some(Decimal { units: (existing.size.units - size.units) as u128 }),
        None,
        None,
    );
    if size.units == existing.size.units {
        match perp.remove_order(existing.order_id) {
            Err(e) => Err(e),
            Ok((after, _)) => Ok((after, order)),
        }
    } else {
        match perp.update_order(order) {
            Err(e) => Err(e),
            Ok(after) => Ok((after, order)),
        }
    }
}

/// A resting order was matched: the order shrinks or leaves the book, the
/// maker's position moves on the order's side and the taker's, if a request
/// is open, on the other, and the fill waits for its taker fill.
pub open spec fn maker_filled(
    model: ExchangeModel,
    scratch: Scratch,
    instant: StateInstant,
    raw: EventContext<ExchangeEvent>,
) -> Result<Step, DexError>
    recommends
        raw.event is MakerOrderFilled,
{
    let event = raw.event;
    let perpetual_id = event->MakerOrderFilled_perpetual_id;
    let order_id = event->MakerOrderFilled_order_id;
    if order_id == 0 {
        Err(DexError::InvalidOrderId)
    } else {
        match model.perp(perpetual_id) {
            None => unchanged(model, scratch),
            Some(perp) => match (
                units_or_overflow(
                    perp.state.price_converter.units_of(event->MakerOrderFilled_price_pns as nat),
                ),
                units_or_overflow(
                    perp.state.size_converter.units_of(event->MakerOrderFilled_lot_lns as nat),
                ),
                units_or_overflow(
                    model.state.collateral_converter.units_of(event->MakerOrderFilled_fee_cns as nat),
                ),
            ) {
                (Ok(price), Ok(size), Ok(fee)) => if !perp.book.orders.contains_key(order_id) {
                    Err(DexError::OrderNotFound(perpetual_id, order_id))
                } else if size.units > perp.book.orders[order_id].size.units {
                    Err(DexError::InvalidEvent)
                } else {
                    let existing = perp.book.orders[order_id];
                    match maker_order_after(perp, existing, instant, scratch.order_context, size) {
                        Err(e) => Err(e),
                        Ok((after, order)) => match model.with_perp(perpetual_id, after).fill_position(
                            instant,
                            perpetual_id,
                            existing.account_id,
                            existing.spec_side(),
                            price,
                            size,
                        ) {
                            Err(e) => Err(e),
                            Ok(made) => match (match scratch.order_context {
                                Some(ctx) => made.fill_position(
                                    instant,
                                    perpetual_id,
                                    ctx.account_id,
                                    existing.spec_side().spec_opposite(),
                                    price,
                                    size,
                                ),
                                None => Ok(made),
                            }) {
                                Err(e) => Err(e),
                                Ok(taken) => reported(
                                    taken,
                                    Scratch {
                                        pending: scratch.pending.push(
                                            PendingFill {
                                                tx_hash: raw.tx_hash,
                                                perpetual_id,
                                                fill: MakerFill {
                                                    log_index: raw.log_index,
                                                    maker_account_id: event->MakerOrderFilled_account_id,
                                                    maker_order_id: order_id,
                                                    price,
                                                    size,
                                                    fee,
                                                },
                                            },
                                        ),
                                        ..scratch
                                    },
                                    StateEvent::MakerFilled {
                                        order: OrderEvent {
                                            perpetual_id,
                                            request_id: context_request(scratch.order_context),
                                            order,
                                        },
                                        price,
                                        size,
                                        fee,
                                    },
                                ),
                            },
                        },
                    }
                },
                _ => Err(DexError::NumericOverflow),
            },
        }
    }
}

/// The request was matched: the pending maker fills are taken; if a trading
/// request is open on a perpetual contract that the replica follows, the
/// taker's fill is reported, and with it the trade, unless no maker fill
/// waits or one of them comes from another transaction.
pub open spec fn taker_filled(
    model: ExchangeModel,
    scratch: Scratch,
    raw: EventContext<ExchangeEvent>,
) -> Result<Step, DexError>
    recommends
        raw.event is TakerOrderFilled,
{
    let taken = Scratch { pending: Seq::empty(), ..scratch };
    match units_or_overflow(
        model.state.collateral_converter.units_of(raw.event->TakerOrderFilled_fee_cns as nat),
    ) {
        Err(e) => Err(e),
        Ok(fee) => match scratch.order_context {
            None => unchanged(model, taken),
            Some(ctx) => match ctx.spec_side() {
                None => unchanged(model, taken),
                Some(side) => if !model.has_perp(ctx.perpetual_id) {
                    unchanged(model, taken)
                } else {
                    let taker = EventModel::Plain(
                        StateEvent::TakerFilled {
                            perpetual_id: ctx.perpetual_id,
                            account_id: ctx.account_id,
                            request_id: Some(ctx.request_id),
                            side,
                            fee,
                        },
                    );
                    if scratch.pending.len() > 0 && same_transaction(scratch.pending, raw.tx_hash) {
                        Ok(
                            Step {
                                model,
                                scratch: taken,
                                events: Seq::empty().push(taker).push(
                                    EventModel::Trade(
                                        TradeModel {
                                            perpetual_id: scratch.pending[0].perpetual_id,
                                            taker_account_id: ctx.account_id,
                                            taker_side: side,
                                            taker_fee: fee,
                                            maker_fills: pending_fills(scratch.pending),
                                        },
                                    ),
                                ),
                            },
                        )
                    } else {
                        Ok(Step { model, scratch: taken, events: Seq::empty().push(taker) })
                    }
                },
            },
        },
    }
}

/// A price or a parameter of a perpetual contract was set: the contract's
/// state changes as `change` says and the event is reported, if the replica
/// follows the contract.
pub open spec fn perp_changed(
    model: ExchangeModel,
    scratch: Scratch,
    perpetual_id: PerpetualId,
    state: PerpetualState,
    event: StateEvent,
) -> Result<Step, DexError> {
    if model.has_perp(perpetual_id) {
        reported(model.with_perp_state(perpetual_id, state), scratch, event)
    } else {
        unchanged(model, scratch)
    }
}

/// What one event of the exchange does to the replica at the instant of its
/// block, given what the engine remembers of the transaction: the replica
/// and the memory afterwards and the state events to report, or the error
/// that stops the block.
pub open spec fn apply_event(
    model: ExchangeModel,
    scratch: Scratch,
    instant: StateInstant,
    raw: EventContext<ExchangeEvent>,
) -> Result<Step, DexError> {
    match raw.event {
        ExchangeEvent::AccountCreated { account_id, address } => reported(
            model.account_created(instant, account_id, address),
            scratch,
            StateEvent::AccountCreated { account_id, address },
        ),
        ExchangeEvent::AccountFrozen { account_id, frozen } => match model.account(account_id) {
            None => unchanged(model, scratch),
            Some(account) => reported(
                model.with_account(account_id, AccountModel { instant, frozen, ..account }),
                scratch,
                StateEvent::AccountFrozen { account_id, frozen },
            ),
        },
        ExchangeEvent::BalanceChanged { account_id, balance_cns } => match units_or_overflow(
            model.state.collateral_converter.units_of(balance_cns as nat),
        ) {
            Err(e) => Err(e),
            Ok(balance) => match model.account(account_id) {
                None => unchanged(model, scratch),
                Some(account) => reported(
                    model.with_account(account_id, AccountModel { instant, balance, ..account }),
                    scratch,
                    StateEvent::AccountBalanceChanged { account_id, balance },
                ),
            },
        },
        ExchangeEvent::OrderRequest { .. } => order_requested(model, scratch, raw.event),
        ExchangeEvent::OrderPlaced { order_id, lot_lns, locked_balance_cns } => order_placed(
            model,
            scratch,
            instant,
            order_id,
            lot_lns,
            locked_balance_cns,
        ),
        ExchangeEvent::OrderChanged {
            order_id,
            price_pns,
            lot_lns,
            expiry_block,
            locked_balance_cns,
        } => order_changed(
            model,
            scratch,
            instant,
            order_id,
            price_pns,
            lot_lns,
            expiry_block,
            locked_balance_cns,
        ),
        ExchangeEvent::OrderCancelled { order_id, locked_balance_cns } => order_cancelled(
            model,
            scratch,
            instant,
            order_id,
            locked_balance_cns,
        ),
        ExchangeEvent::MakerOrderFilled { .. } => maker_filled(model, scratch, instant, raw),
        ExchangeEvent::TakerOrderFilled { .. } => taker_filled(model, scratch, raw),
        ExchangeEvent::OrderBatchCompleted => unchanged(
            model,
            Scratch { order_context: None, pending: Seq::empty(), ..scratch },
        ),
        ExchangeEvent::MarkPriceUpdated { perpetual_id, price_pns } => match model.perp(perpetual_id) {
            None => unchanged(model, scratch),
            Some(perp) => match units_or_overflow(
                perp.state.price_converter.units_of(price_pns as nat),
            ) {
                Err(e) => Err(e),
                Ok(price) => perp_changed(
                    model,
                    scratch,
                    perpetual_id,
                    PerpetualState {
                        instant,
                        mark_price: price,
                        mark_price_block: Some(instant.block_number),
                        mark_price_timestamp: instant.block_timestamp,
                        ..perp.state
                    },
                    StateEvent::MarkPriceUpdated { perpetual_id, price },
                ),
            },
        },
        ExchangeEvent::OraclePriceUpdated { perpetual_id, price_pns } => match model.perp(perpetual_id) {
            None => unchanged(model, scratch),
            Some(perp) => match units_or_overflow(
                perp.state.price_converter.units_of(price_pns as nat),
            ) {
                Err(e) => Err(e),
                Ok(price) => perp_changed(
                    model,
                    scratch,
                    perpetual_id,
                    PerpetualState {
                        instant,
                        oracle_price: price,
                        oracle_price_block: Some(instant.block_number),
                        oracle_price_timestamp: instant.block_timestamp,
                        ..perp.state
                    },
                    StateEvent::OraclePriceUpdated { perpetual_id, price },
                ),
            },
        },
        ExchangeEvent::LastPriceUpdated { perpetual_id, price_pns } => match model.perp(perpetual_id) {
            None => unchanged(model, scratch),
            Some(perp) => match units_or_overflow(
                perp.state.price_converter.units_of(price_pns as nat),
            ) {
                Err(e) => Err(e),
                Ok(price) => perp_changed(
                    model,
                    scratch,
                    perpetual_id,
                    PerpetualState {
                        instant,
                        last_price: price,
                        last_price_block: Some(instant.block_number),
                        last_price_timestamp: instant.block_timestamp,
                        ..perp.state
                    },
                    StateEvent::LastPriceUpdated { perpetual_id, price },
                ),
            },
        },
        ExchangeEvent::PerpetualPaused { perpetual_id, paused } => match model.perp(perpetual_id) {
            None => unchanged(model, scratch),
            Some(perp) => perp_changed(
                model,
                scratch,
                perpetual_id,
                PerpetualState { instant, is_paused: paused, ..perp.state },
                StateEvent::PerpetualPaused { perpetual_id, paused },
            ),
        },
        ExchangeEvent::MakerFeeChanged { perpetual_id, fee } => match model.perp(perpetual_id) {
            None => unchanged(model, scratch),
            Some(perp) => match units_or_overflow(
                perp.state.fee_converter.units_of(fee as nat),
            ) {
                Err(e) => Err(e),
                Ok(value) => perp_changed(
                    model,
                    scratch,
                    perpetual_id,
                    PerpetualState { instant, maker_fee: value, ..perp.state },
                    StateEvent::MakerFeeChanged { perpetual_id, fee: value },
                ),
            },
        },
        ExchangeEvent::TakerFeeChanged { perpetual_id, fee } => match model.perp(perpetual_id) {
            None => unchanged(model, scratch),
            Some(perp) => match units_or_overflow(
                perp.state.fee_converter.units_of(fee as nat),
            ) {
                Err(e) => Err(e),
                Ok(value) => perp_changed(
                    model,
                    scratch,
                    perpetual_id,
                    PerpetualState { instant, taker_fee: value, ..perp.state },
                    StateEvent::TakerFeeChanged { perpetual_id, fee: value },
                ),
            },
        },
        ExchangeEvent::InitialMarginChanged { perpetual_id, margin_hdths } => match model.perp(perpetual_id) {
            None => unchanged(model, scratch),
            Some(perp) => match units_or_overflow(
                perp.state.leverage_converter.units_of(margin_hdths as nat),
            ) {
                Err(e) => Err(e),
                Ok(value) => perp_changed(
                    model,
                    scratch,
                    perpetual_id,
                    PerpetualState { instant, initial_margin: value, ..perp.state },
                    StateEvent::InitialMarginChanged { perpetual_id, margin: value },
                ),
            },
        },
        ExchangeEvent::MaintenanceMarginChanged { perpetual_id, margin_hdths } => match model.perp(perpetual_id) {
            None => unchanged(model, scratch),
            Some(perp) => match units_or_overflow(
                perp.state.leverage_converter.units_of(margin_hdths as nat),
            ) {
                Err(e) => Err(e),
                Ok(value) => perp_changed(
                    model,
                    scratch,
                    perpetual_id,
                    PerpetualState { instant, maintenance_margin: value, ..perp.state },
                    StateEvent::MaintenanceMarginChanged { perpetual_id, margin: value },
                ),
            },
        },
        ExchangeEvent::PriceMaxAgeChanged { perpetual_id, max_age } => match model.perp(perpetual_id) {
            None => unchanged(model, scratch),
            Some(perp) => perp_changed(
                model,
                scratch,
                perpetual_id,
                PerpetualState { instant, price_max_age: max_age, ..perp.state },
                StateEvent::PriceMaxAgeChanged { perpetual_id, max_age },
            ),
        },
        ExchangeEvent::ExchangeHalted => unchanged(
            ExchangeModel { state: ExchangeState { is_halted: true, ..model.state }, ..model },
            scratch,
        ),
        ExchangeEvent::ExchangeResumed => unchanged(
            ExchangeModel { state: ExchangeState { is_halted: false, ..model.state }, ..model },
            scratch,
        ),
        ExchangeEvent::Other => unchanged(model, scratch),
    }
}

/// What the next event of a block does to the outcome of the events before
/// it: the order context and the pending fills are forgotten if the event
/// starts a later transaction, the event is applied, and its state events,
/// if there are any, make one more group, which carries the event's place in
/// the block.
#[verifier::opaque]
pub open spec fn advance(before: Run, instant: StateInstant, raw: EventContext<ExchangeEvent>) -> Result<
    Run,
    DexError,
> {
    match apply_event(before.model, before.scratch.entering(raw.tx_index), instant, raw) {
        Err(e) => Err(e),
        Ok(step) => Ok(
            Run {
                model: step.model,
                scratch: Scratch { prev_tx_index: Some(raw.tx_index), ..step.scratch },
                groups: if step.events.len() > 0 {
                    before.groups.push(
                        GroupModel {
                            tx_hash: raw.tx_hash,
                            tx_index: raw.tx_index,
                            log_index: raw.log_index,
                            events: step.events,
                        },
                    )
                } else {
                    before.groups
                },
            },
        ),
    }
}

/// What the first `n` events of a block do to the replica, one after the
/// other, starting with nothing remembered.
pub open spec fn run(
    model: ExchangeModel,
    instant: StateInstant,
    events: Seq<EventContext<ExchangeEvent>>,
    n: int,
) -> Result<Run, DexError>
    decreases n,
{
    if n <= 0 {
        Ok(Run { model, scratch: Scratch::empty(), groups: Seq::empty() })
    } else {
        match run(model, instant, events, n - 1) {
            Err(e) => Err(e),
            Ok(before) => advance(before, instant, events[n - 1]),
        }
    }
}

/// The state events for the orders of a perpetual contract that turn expired
/// at `instant`, by ascending order ID.
pub open spec fn expired_events(perp: PerpModel, instant: StateInstant) -> Seq<EventModel> {
    let orders = perp.book.expiring(instant, 65536);
    Seq::new(
        orders.len(),
        |i: int|
            EventModel::Plain(
                StateEvent::OrderExpired(
                    OrderEvent {
                        perpetual_id: perp.state.id,
                        request_id: orders[i].request_id,
                        order: orders[i],
                    },
                ),
            ),
    )
}

/// The state events for the orders of the first `n` perpetual contracts that
/// turn expired at `instant`, contract by contract.
pub open spec fn all_expired_events(perpetuals: Seq<PerpModel>, instant: StateInstant, n: int) -> Seq<
    EventModel,
>
    decreases n,
{
    if n <= 0 {
        Seq::empty()
    } else {
        all_expired_events(perpetuals, instant, n - 1) + expired_events(perpetuals[n - 1], instant)
    }
}

/// The perpetual contracts after the end-of-block expiry step.
pub open spec fn expire_all(perpetuals: Seq<PerpModel>, instant: StateInstant) -> Seq<PerpModel> {
    Seq::new(perpetuals.len(), |i: int| perpetuals[i].expire(instant))
}

/// The place in the block that the group of expiry events carries: after
/// every transaction.
pub open spec fn expiry_group(events: Seq<EventModel>) -> GroupModel {
    GroupModel {
        tx_hash: TxHash { high: 0, low: 0 },
        tx_index: u64::MAX,
        log_index: u64::MAX,
        events,
    }
}

/// What a block does to the replica. The block must be the one that follows
/// the replica's instant. Its events are applied in their order; then every
/// order whose last block has passed is marked expired; then the replica
/// stands at the block's instant. With the replica come the groups of state
/// events, those of the expiry step last.
pub open spec fn apply_block(
    model: ExchangeModel,
    instant: StateInstant,
    events: Seq<EventContext<ExchangeEvent>>,
) -> Result<(ExchangeModel, Seq<GroupModel>), DexError> {
    if instant.block_number != model.state.instant.block_number + 1 {
        Err(
            DexError::BlockOutOfOrder {
                current: model.state.instant.block_number,
                found: instant.block_number,
            },
        )
    } else {
        match run(model, instant, events, events.len() as int) {
            Err(e) => Err(e),
            Ok(done) => {
                let expired = all_expired_events(
                    done.model.perpetuals,
                    instant,
                    done.model.perpetuals.len() as int,
                );
                Ok(
                    (
                        ExchangeModel {
                            state: ExchangeState { instant, ..done.model.state },
                            perpetuals: expire_all(done.model.perpetuals, instant),
                            accounts: done.model.accounts,
                        },
                        if expired.len() > 0 {
                            done.groups.push(expiry_group(expired))
                        } else {
                            done.groups
                        },
                    ),
                )
            },
        }
    }
}

/// An order event that names the order zero stops the block with
/// `InvalidOrderId`, whatever the replica holds.
pub proof fn lemma_order_id_zero(
    model: ExchangeModel,
    scratch: Scratch,
    instant: StateInstant,
    raw: EventContext<ExchangeEvent>,
)
    requires
        (raw.event matches ExchangeEvent::OrderPlaced { order_id, .. } && order_id == 0) || (
        raw.event matches ExchangeEvent::OrderChanged { order_id, .. } && order_id == 0) || (
        raw.event matches ExchangeEvent::OrderCancelled { order_id, .. } && order_id == 0) || (
        raw.event matches ExchangeEvent::MakerOrderFilled { order_id, .. } && order_id == 0),
    ensures
        apply_event(model, scratch, instant, raw) == Err::<Step, DexError>(
            DexError::InvalidOrderId,
        ),
{
}

} // verus!
