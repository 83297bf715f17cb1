//! Trades: one taker matched against one or more makers.

use vstd::prelude::*;

use crate::num::{checked_sum, sum_units, Decimal};
use crate::types::order::OrderSide;
use crate::types::{AccountId, OrderId, PerpetualId};

verus! {

/// A single maker fill within a taker trade.
#[derive(Clone, Copy, Debug, PartialEq, Eq, Structural)]
pub struct MakerFill {
    /// Log index of this maker fill event.
    pub log_index: u64,
    /// Maker account ID.
    pub maker_account_id: AccountId,
    /// Maker order ID.
    pub maker_order_id: OrderId,
    /// Fill price.
    pub price: Decimal,
    /// Fill size.
    pub size: Decimal,
    /// Maker fee paid, in collateral token.
    pub fee: Decimal,
}

/// A complete trade: one taker order execution that matched one or more
/// maker orders.
#[derive(Clone, Debug)]
pub struct Trade {
    /// Perpetual contract ID.
    pub perpetual_id: PerpetualId,
    /// Taker account ID.
    pub taker_account_id: AccountId,
    /// Taker side (Bid = buying, Ask = selling).
    pub taker_side: OrderSide,
    /// Taker fee paid, in collateral token.
    pub taker_fee: Decimal,
    /// All maker fills matched by this taker order.
    pub maker_fills: Vec<MakerFill>,
}

/// The sizes of the fills, in their order.
pub open spec fn fill_sizes(fills: Seq<MakerFill>) -> Seq<Decimal> {
    Seq::new(fills.len(), |i: int| fills[i].size)
}

/// The fees of the fills, in their order.
pub open spec fn fill_fees(fills: Seq<MakerFill>) -> Seq<Decimal> {
    Seq::new(fills.len(), |i: int| fills[i].fee)
}

/// Whether price times size can be formed for every fill.
pub open spec fn fill_values_exist(fills: Seq<MakerFill>) -> bool {
    forall|i: int| 0 <= i < fills.len() ==> (#[trigger] fills[i]).price.spec_checked_mul(fills[i].size) is Some
}

/// Price times size of every fill, in their order.
pub open spec fn fill_values(fills: Seq<MakerFill>) -> Seq<Decimal> {
    Seq::new(fills.len(), |i: int| fills[i].price.spec_checked_mul(fills[i].size).unwrap())
}

/// The decimal of `units`, where they fit.
pub open spec fn decimal_of(units: nat) -> Option<Decimal> {
    if units <= u128::MAX {
        Some(Decimal { units: units as u128 })
    } else {
        None
    }
}

/// The volume-weighted average price of the fills: the sum of price times
/// size over the sum of the sizes. There is none without fills, for a total
/// size of zero, or where a product, a sum or the quotient leaves the range
/// of the type.
pub open spec fn spec_avg_price(fills: Seq<MakerFill>) -> Option<Decimal> {
    if fills.len() == 0 || !fill_values_exist(fills) {
        None
    } else {
        match (decimal_of(sum_units(fill_values(fills))), decimal_of(sum_units(fill_sizes(fills)))) {
            (Some(value), Some(size)) => value.spec_checked_div(size),
            _ => None,
        }
    }
}

fn collect_sizes(fills: &Vec<MakerFill>) -> (r: Vec<Decimal>)
    ensures
        r@ == fill_sizes(fills@),
{
    let mut r: Vec<Decimal> = Vec::new();
    let mut i: usize = 0;
    while i < fills.len()
        invariant
            i <= fills.len(),
            r@.len() == i,
            forall|j: int| 0 <= j < i ==> r@[j] == fills@[j].size,
        decreases fills.len() - i,
    {
        r.push(fills[i].size);
        i = i + 1;
    }
    assert(r@ =~= fill_sizes(fills@));
    r
}

fn collect_fees(fills: &Vec<MakerFill>) -> (r: Vec<Decimal>)
    ensures
        r@ == fill_fees(fills@),
{
    let mut r: Vec<Decimal> = Vec::new();
    let mut i: usize = 0;
    while i < fills.len()
        invariant
            i <= fills.len(),
            r@.len() == i,
            forall|j: int| 0 <= j < i ==> r@[j] == fills@[j].fee,
        decreases fills.len() - i,
    {
        r.push(fills[i].fee);
        i = i + 1;
    }
    assert(r@ =~= fill_fees(fills@));
    r
}

fn collect_values(fills: &Vec<MakerFill>) -> (r: Option<Vec<Decimal>>)
    ensures
        fill_values_exist(fills@) ==> r is Some && r.unwrap()@ == fill_values(fills@),
        !fill_values_exist(fills@) ==> r is None,
{
    let mut r: Vec<Decimal> = Vec::new();
    let mut i: usize = 0;
    while i < fills.len()
        invariant
            i <= fills.len(),
            r@.len() == i,
            forall|j: int|
                0 <= j < i ==> (#[trigger] fills@[j]).price.spec_checked_mul(fills@[j].size) == Some(
                    r@[j],
                ),
        decreases fills.len() - i,
    {
        match fills[i].price.checked_mul(fills[i].size) {
            Some(v) => {
                r.push(v);
            },
            None => {
                assert(fills@[i as int].price.spec_checked_mul(fills@[i as int].size) is None);
                return None;
            },
        }
        i = i + 1;
    }
    assert(r@ =~= fill_values(fills@));
    Some(r)
}

impl Trade {
    /// Total size filled across all makers; none where the sum leaves the
    /// range of the type.
    pub fn total_size(&self) -> (r: Option<Decimal>)
        ensures
            r == decimal_of(sum_units(fill_sizes(self.maker_fills@))),
    {
        let sizes = collect_sizes(&self.maker_fills);
        checked_sum(&sizes)
    }

    /// Volume-weighted average price across all maker fills.
    ///
    /// Returns `None` if there are no fills.
    pub fn avg_price(&self) -> (r: Option<Decimal>)
        ensures
            r == spec_avg_price(self.maker_fills@),
    {
        if self.maker_fills.len() == 0 {
            return None;
        }
        let values = match collect_values(&self.maker_fills) {
            Some(v) => v,
            None => {
                return None;
            },
        };
        let total_value = match checked_sum(&values) {
            Some(v) => v,
            None => {
                return None;
            },
        };
        let total_size = match self.total_size() {
            Some(v) => v,
            None => {
                return None;
            },
        };
        total_value.checked_div(total_size)
    }

    /// Total maker fees paid across all fills; none where the sum leaves the
    /// range of the type.
    pub fn total_maker_fees(&self) -> (r: Option<Decimal>)
        ensures
            r == decimal_of(sum_units(fill_fees(self.maker_fills@))),
    {
        let fees = collect_fees(&self.maker_fills);
        checked_sum(&fees)
    }
}

} // verus!
