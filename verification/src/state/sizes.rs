//! No more is left of an order than was placed.
//!
//! Every order that the events of the exchange bring into the replica
//! satisfies this, and every event keeps it so.

use vstd::prelude::*;

use crate::state::l3_book::BookModel;
use crate::state::order::Order;
use crate::state::perpetual::PerpModel;
use crate::state::transition::{
    advance, apply_block, apply_event, maker_filled, maker_order_after, order_cancelled,
    order_changed, order_placed, perp_keys, run, ExchangeModel, Scratch,
};
use crate::types::event::{EventContext, ExchangeEvent};
use crate::types::order::OrderSide;
use crate::num::Decimal;
use crate::types::{AccountId, OrderId, PerpetualId, StateInstant};

verus! {

impl BookModel {
    /// Of no order of the book more is left than was placed.
    pub open spec fn sized(&self) -> bool {
        forall|id: OrderId| self.orders.contains_key(id) ==> (#[trigger] self.orders[id]).sized()
    }
}

impl ExchangeModel {
    /// Of no order of any book more is left than was placed.
    pub open spec fn sized(&self) -> bool {
        forall|i: int| 0 <= i < self.perpetuals.len() ==> (#[trigger] self.perpetuals[i]).book.sized()
    }

    /// The books are those of `other`, contract by contract.
    pub open spec fn same_books(&self, other: ExchangeModel) -> bool {
        &&& self.perpetuals.len() == other.perpetuals.len()
        &&& forall|i: int|
            0 <= i < self.perpetuals.len() ==> (#[trigger] self.perpetuals[i]).book
                == other.perpetuals[i].book
    }
}

/// Adding, replacing and removing orders keeps a book sized as long as the
/// orders that come are.
pub proof fn lemma_book_sized(book: BookModel, order: Order)
    requires
        book.sized(),
    ensures
        order.sized() ==> book.add(order).sized(),
        order.sized() ==> book.update(order).sized(),
        book.remove(order.order_id).sized(),
{
    if order.sized() {
        assert forall|id: OrderId| book.add(order).orders.contains_key(id) implies (#[trigger] book.add(
            order,
        ).orders[id]).sized() by {
            if id != order.order_id {
                assert(book.orders.contains_key(id));
            }
        }
        let removed = book.remove(order.order_id);
        assert forall|id: OrderId| removed.orders.contains_key(id) implies (#[trigger] removed.orders[id]).sized() by {
            assert(book.orders.contains_key(id));
        }
        assert forall|id: OrderId| book.update(order).orders.contains_key(id) implies (#[trigger] book.update(
            order,
        ).orders[id]).sized() by {
            if id != order.order_id {
                assert(book.orders.contains_key(id));
                assert(removed.orders.contains_key(id) ==> removed.orders[id] == book.orders[id]);
            }
        }
    }
    let removed = book.remove(order.order_id);
    assert forall|id: OrderId| removed.orders.contains_key(id) implies (#[trigger] removed.orders[id]).sized() by {
        assert(book.orders.contains_key(id));
    }
}

/// Bringing orders up to an instant keeps a book sized.
pub proof fn lemma_expire_sized(book: BookModel, instant: StateInstant)
    requires
        book.sized(),
    ensures
        book.expire(instant).sized(),
{
    assert forall|id: OrderId| book.expire(instant).orders.contains_key(id) implies (#[trigger] book.expire(
        instant,
    ).orders[id]).sized() by {
        assert(book.orders.contains_key(id));
        assert(book.orders[id].sized());
    }
}

/// An exchange whose books are those of a sized exchange is sized.
pub proof fn lemma_same_books_sized(before: ExchangeModel, after: ExchangeModel)
    requires
        before.sized(),
        after.same_books(before),
    ensures
        after.sized(),
{
    assert forall|i: int| 0 <= i < after.perpetuals.len() implies (#[trigger] after.perpetuals[i]).book.sized() by {
        assert(before.perpetuals[i].book.sized());
    }
}

/// Replacing a contract by one with a sized book keeps the exchange sized.
pub proof fn lemma_with_perp_sized(model: ExchangeModel, id: PerpetualId, perp: PerpModel)
    requires
        model.sized(),
        model.has_perp(id),
        perp.book.sized(),
    ensures
        model.with_perp(id, perp).sized(),
        model.with_perp(id, perp).perpetuals.len() == model.perpetuals.len(),
{
    let after = model.with_perp(id, perp);
    assert forall|i: int| 0 <= i < after.perpetuals.len() implies (#[trigger] after.perpetuals[i]).book.sized() by {
        if i != model.perp_index(id) {
            assert(model.perpetuals[i].book.sized());
        }
    }
}

/// A fill moves positions and open interest and leaves the books as they
/// are.
pub proof fn lemma_fill_position_books(
    model: ExchangeModel,
    instant: StateInstant,
    perpetual_id: PerpetualId,
    account_id: AccountId,
    side: OrderSide,
    price: crate::num::Decimal,
    size: crate::num::Decimal,
)
    requires
        model.has_perp(perpetual_id),
    ensures
        model.fill_position(instant, perpetual_id, account_id, side, price, size) matches Ok(after)
            ==> after.same_books(model) && perp_keys(after.perpetuals) == perp_keys(
            model.perpetuals,
        ),
{
    match model.fill_position(instant, perpetual_id, account_id, side, price, size) {
        Ok(after) => {
            let i = model.perp_index(perpetual_id);
            assert(0 <= i < model.perpetuals.len() && perp_keys(model.perpetuals)[i]
                == perpetual_id);
            assert(perp_keys(after.perpetuals) =~= perp_keys(model.perpetuals));
        },
        Err(_) => {},
    }
}

/// Setting an account's locked balance leaves the books as they are.
pub proof fn lemma_lock_books(
    model: ExchangeModel,
    instant: StateInstant,
    id: AccountId,
    locked: crate::num::Decimal,
)
    ensures
        model.lock(instant, id, locked).same_books(model),
{
}

/// Placing an order keeps the exchange sized: what is left of a placed order
/// is what was placed.
pub proof fn lemma_placed_sized(
    model: ExchangeModel,
    scratch: Scratch,
    instant: StateInstant,
    order_id: u16,
    lot_lns: u128,
    locked_balance_cns: u128,
)
    requires
        model.sized(),
    ensures
        order_placed(model, scratch, instant, order_id, lot_lns, locked_balance_cns) matches Ok(
            step,
        ) ==> step.model.sized(),
{
    match order_placed(model, scratch, instant, order_id, lot_lns, locked_balance_cns) {
        Ok(step) => {
            let ctx = scratch.order_context->Some_0;
            if model.has_perp(ctx.perpetual_id) {
                let perp = model.perpetuals[model.perp_index(ctx.perpetual_id)];
                let size = Decimal {
                    units: perp.state.size_converter.units_of(lot_lns as nat) as u128,
                };
                let locked = Decimal {
                    units: model.state.collateral_converter.units_of(
                        locked_balance_cns as nat,
                    ) as u128,
                };
                let order = Order::spec_placed(
                    instant,
                    ctx,
                    order_id,
                    size,
                    perp.state.price_converter,
                    perp.state.leverage_converter,
                )->Ok_0;
                let after = perp.add_order(order)->Ok_0;
                assert(perp.book.sized());
                lemma_book_sized(perp.book, order);
                lemma_with_perp_sized(model, ctx.perpetual_id, after);
                let placed = model.with_perp(ctx.perpetual_id, after);
                lemma_lock_books(placed, instant, order.account_id, locked);
                lemma_same_books_sized(placed, step.model);
            }
        },
        Err(_) => {},
    }
}

/// Changing an order keeps the exchange sized: a change places the order
/// anew at its new size.
pub proof fn lemma_changed_sized(
    model: ExchangeModel,
    scratch: Scratch,
    instant: StateInstant,
    order_id: u16,
    price_pns: u128,
    lot_lns: u128,
    expiry_block: u64,
    locked_balance_cns: u128,
)
    requires
        model.sized(),
    ensures
        order_changed(
            model,
            scratch,
            instant,
            order_id,
            price_pns,
            lot_lns,
            expiry_block,
            locked_balance_cns,
        ) matches Ok(step) ==> step.model.sized(),
{
    match order_changed(
        model,
        scratch,
        instant,
        order_id,
        price_pns,
        lot_lns,
        expiry_block,
        locked_balance_cns,
    ) {
        Ok(step) => {
            let ctx = scratch.order_context->Some_0;
            if model.has_perp(ctx.perpetual_id) {
                let perp = model.perpetuals[model.perp_index(ctx.perpetual_id)];
                let price = Decimal {
                    units: perp.state.price_converter.units_of(price_pns as nat) as u128,
                };
                let size = Decimal {
                    units: perp.state.size_converter.units_of(lot_lns as nat) as u128,
                };
                let locked = Decimal {
                    units: model.state.collateral_converter.units_of(
                        locked_balance_cns as nat,
                    ) as u128,
                };
                let order = perp.book.orders[order_id].spec_updated(
                    instant,
                    Some(ctx),
                    Some(price),
                    Some(size),
                    Some(size),
                    Some(expiry_block),
                );
                let after = perp.update_order(order)->Ok_0;
                assert(perp.book.sized());
                lemma_book_sized(perp.book, order);
                lemma_with_perp_sized(model, ctx.perpetual_id, after);
                let changed = model.with_perp(ctx.perpetual_id, after);
                lemma_lock_books(changed, instant, order.account_id, locked);
                lemma_same_books_sized(changed, step.model);
            }
        },
        Err(_) => {},
    }
}

/// Cancelling an order keeps the exchange sized.
pub proof fn lemma_cancelled_sized(
    model: ExchangeModel,
    scratch: Scratch,
    instant: StateInstant,
    order_id: u16,
    locked_balance_cns: u128,
)
    requires
        model.sized(),
    ensures
        order_cancelled(model, scratch, instant, order_id, locked_balance_cns) matches Ok(step)
            ==> step.model.sized(),
{
    match order_cancelled(model, scratch, instant, order_id, locked_balance_cns) {
        Ok(step) => {
            let ctx = scratch.order_context->Some_0;
            if model.has_perp(ctx.perpetual_id) {
                let perp = model.perpetuals[model.perp_index(ctx.perpetual_id)];
                let locked = Decimal {
                    units: model.state.collateral_converter.units_of(
                        locked_balance_cns as nat,
                    ) as u128,
                };
                let order = perp.book.orders[order_id];
                let after = perp.remove_order(order_id)->Ok_0.0;
                assert(perp.book.sized());
                lemma_book_sized(perp.book, Order { order_id, ..order });
                lemma_with_perp_sized(model, ctx.perpetual_id, after);
                let cancelled = model.with_perp(ctx.perpetual_id, after);
                lemma_lock_books(cancelled, instant, order.account_id, locked);
                lemma_same_books_sized(cancelled, step.model);
            }
        },
        Err(_) => {},
    }
}

/// A maker fill keeps the exchange sized: a fill takes from what is left of
/// the order.
pub proof fn lemma_maker_filled_sized(
    model: ExchangeModel,
    scratch: Scratch,
    instant: StateInstant,
    raw: EventContext<ExchangeEvent>,
)
    requires
        model.sized(),
        raw.event is MakerOrderFilled,
    ensures
        maker_filled(model, scratch, instant, raw) matches Ok(step) ==> step.model.sized(),
{
    match maker_filled(model, scratch, instant, raw) {
        Ok(step) => {
            let event = raw.event;
            let perpetual_id = event->MakerOrderFilled_perpetual_id;
            let order_id = event->MakerOrderFilled_order_id;
            if model.has_perp(perpetual_id) {
                let perp = model.perpetuals[model.perp_index(perpetual_id)];
                let price = Decimal {
                    units: perp.state.price_converter.units_of(
                        event->MakerOrderFilled_price_pns as nat,
                    ) as u128,
                };
                let size = Decimal {
                    units: perp.state.size_converter.units_of(
                        event->MakerOrderFilled_lot_lns as nat,
                    ) as u128,
                };
                let existing = perp.book.orders[order_id];
                assert(perp.book.sized());
                assert(existing.sized());
                let outcome = maker_order_after(perp, existing, instant, scratch.order_context, size)->Ok_0;
                let after = outcome.0;
                let order = outcome.1;
                assert(order.sized());
                lemma_book_sized(perp.book, order);
                lemma_book_sized(perp.book, existing);
                assert(after.book.sized());
                lemma_with_perp_sized(model, perpetual_id, after);
                let shrunk = model.with_perp(perpetual_id, after);
                assert(perp_keys(shrunk.perpetuals) =~= perp_keys(model.perpetuals));
                lemma_fill_position_books(
                    shrunk,
                    instant,
                    perpetual_id,
                    existing.account_id,
                    existing.spec_side(),
                    price,
                    size,
                );
                let made = shrunk.fill_position(
                    instant,
                    perpetual_id,
                    existing.account_id,
                    existing.spec_side(),
                    price,
                    size,
                )->Ok_0;
                lemma_same_books_sized(shrunk, made);
                match scratch.order_context {
                    Some(ctx) => {
                        lemma_fill_position_books(
                            made,
                            instant,
                            perpetual_id,
                            ctx.account_id,
                            existing.spec_side().spec_opposite(),
                            price,
                            size,
                        );
                        lemma_same_books_sized(made, step.model);
                    },
                    None => {},
                }
            }
        },
        Err(_) => {},
    }
}

/// An event about an account leaves the books as they are.
pub proof fn lemma_account_event_books(
    model: ExchangeModel,
    scratch: Scratch,
    instant: StateInstant,
    raw: EventContext<ExchangeEvent>,
)
    requires
        raw.event is AccountCreated || raw.event is AccountFrozen || raw.event is BalanceChanged,
    ensures
        apply_event(model, scratch, instant, raw) matches Ok(step) ==> step.model.same_books(
            model,
        ),
{
}

/// A price update leaves the books as they are.
pub proof fn lemma_price_event_books(
    model: ExchangeModel,
    scratch: Scratch,
    instant: StateInstant,
    raw: EventContext<ExchangeEvent>,
)
    requires
        raw.event is MarkPriceUpdated || raw.event is OraclePriceUpdated
            || raw.event is LastPriceUpdated,
    ensures
        apply_event(model, scratch, instant, raw) matches Ok(step) ==> step.model.same_books(
            model,
        ),
{
}

/// A change of a parameter leaves the books as they are.
pub proof fn lemma_param_event_books(
    model: ExchangeModel,
    scratch: Scratch,
    instant: StateInstant,
    raw: EventContext<ExchangeEvent>,
)
    requires
        raw.event is PerpetualPaused || raw.event is MakerFeeChanged
            || raw.event is TakerFeeChanged || raw.event is InitialMarginChanged
            || raw.event is MaintenanceMarginChanged || raw.event is PriceMaxAgeChanged,
    ensures
        apply_event(model, scratch, instant, raw) matches Ok(step) ==> step.model.same_books(
            model,
        ),
{
}

/// An event of the request bookkeeping, of the exchange as a whole or of
/// no concern leaves the books as they are.
pub proof fn lemma_other_event_books(
    model: ExchangeModel,
    scratch: Scratch,
    instant: StateInstant,
    raw: EventContext<ExchangeEvent>,
)
    requires
        raw.event is OrderRequest || raw.event is TakerOrderFilled
            || raw.event is OrderBatchCompleted || raw.event is ExchangeHalted
            || raw.event is ExchangeResumed || raw.event is Other,
    ensures
        apply_event(model, scratch, instant, raw) matches Ok(step) ==> step.model.same_books(
            model,
        ),
{
}

/// Every event of the exchange keeps the replica sized.
pub proof fn lemma_apply_event_sized(
    model: ExchangeModel,
    scratch: Scratch,
    instant: StateInstant,
    raw: EventContext<ExchangeEvent>,
)
    requires
        model.sized(),
    ensures
        apply_event(model, scratch, instant, raw) matches Ok(step) ==> step.model.sized(),
{
    let outcome = apply_event(model, scratch, instant, raw);
    if raw.event is OrderPlaced {
        lemma_placed_sized(
            model,
            scratch,
            instant,
            raw.event->OrderPlaced_order_id,
            raw.event->OrderPlaced_lot_lns,
            raw.event->OrderPlaced_locked_balance_cns,
        );
    } else if raw.event is OrderChanged {
        lemma_changed_sized(
            model,
            scratch,
            instant,
            raw.event->OrderChanged_order_id,
            raw.event->OrderChanged_price_pns,
            raw.event->OrderChanged_lot_lns,
            raw.event->OrderChanged_expiry_block,
            raw.event->OrderChanged_locked_balance_cns,
        );
    } else if raw.event is OrderCancelled {
        lemma_cancelled_sized(
            model,
            scratch,
            instant,
            raw.event->OrderCancelled_order_id,
            raw.event->OrderCancelled_locked_balance_cns,
        );
    } else if raw.event is MakerOrderFilled {
        lemma_maker_filled_sized(model, scratch, instant, raw);
    } else {
        if raw.event is AccountCreated || raw.event is AccountFrozen
            || raw.event is BalanceChanged {
            lemma_account_event_books(model, scratch, instant, raw);
        } else if raw.event is MarkPriceUpdated || raw.event is OraclePriceUpdated
            || raw.event is LastPriceUpdated {
            lemma_price_event_books(model, scratch, instant, raw);
        } else if raw.event is PerpetualPaused || raw.event is MakerFeeChanged
            || raw.event is TakerFeeChanged || raw.event is InitialMarginChanged
            || raw.event is MaintenanceMarginChanged || raw.event is PriceMaxAgeChanged {
            lemma_param_event_books(model, scratch, instant, raw);
        } else {
            lemma_other_event_books(model, scratch, instant, raw);
        }
        if outcome is Ok {
            lemma_same_books_sized(model, outcome->Ok_0.model);
        }
    }
}

/// The events of a block keep the replica sized.
pub proof fn lemma_run_sized(
    model: ExchangeModel,
    instant: StateInstant,
    events: Seq<EventContext<ExchangeEvent>>,
    n: int,
)
    requires
        model.sized(),
    ensures
        run(model, instant, events, n) matches Ok(done) ==> done.model.sized(),
    decreases n,
{
    if n > 0 {
        lemma_run_sized(model, instant, events, n - 1);
        match run(model, instant, events, n - 1) {
            Ok(before) => {
                reveal(advance);
                lemma_apply_event_sized(
                    before.model,
                    before.scratch.entering(events[n - 1].tx_index),
                    instant,
                    events[n - 1],
                );
            },
            Err(_) => {},
        }
    }
}

/// A block keeps the replica sized: of no order of a replica that the
/// events of the exchange have built is more left than was placed.
pub proof fn lemma_apply_block_sized(
    model: ExchangeModel,
    instant: StateInstant,
    events: Seq<EventContext<ExchangeEvent>>,
)
    requires
        model.sized(),
    ensures
        apply_block(model, instant, events) matches Ok((after, _)) ==> after.sized(),
{
    match apply_block(model, instant, events) {
        Ok((after, _)) => {
            lemma_run_sized(model, instant, events, events.len() as int);
            let done = run(model, instant, events, events.len() as int)->Ok_0;
            assert forall|i: int| 0 <= i < after.perpetuals.len() implies (#[trigger] after.perpetuals[i]).book.sized() by {
                assert(done.model.perpetuals[i].book.sized());
                lemma_expire_sized(done.model.perpetuals[i].book, instant);
            }
        },
        Err(_) => {},
    }
}

} // verus!
