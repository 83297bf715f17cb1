//! Open positions.

use vstd::prelude::*;

use crate::error::DexError;
use crate::num::{Converter, Decimal, SignedDecimal};
use crate::types::order::OrderSide;
use crate::types::{AccountId, PerpetualId, StateInstant};

verus! {

/// Direction of a position.
#[derive(Clone, Copy, Debug, PartialEq, Eq, Structural)]
pub enum PositionType {
    Long,
    Short,
}

impl PositionType {
    /// The position type the exchange encodes as `value`, if there is one.
    pub open spec fn spec_from_u8(value: u8) -> Option<PositionType> {
        if value == 0 {
            Some(PositionType::Long)
        } else if value == 1 {
            Some(PositionType::Short)
        } else {
            None
        }
    }

    /// The position type the exchange encodes as `value`, if there is one.
    #[verifier::when_used_as_spec(spec_from_u8)]
    pub fn from_u8(value: u8) -> (r: Option<PositionType>)
        ensures
            r == PositionType::spec_from_u8(value),
    {
        match value {
            0 => Some(PositionType::Long),
            1 => Some(PositionType::Short),
            _ => None,
        }
    }

    /// The direction in which a fill on `side` moves a position: buying goes
    /// long, selling goes short.
    pub open spec fn spec_of_side(side: OrderSide) -> PositionType {
        match side {
            OrderSide::Bid => PositionType::Long,
            OrderSide::Ask => PositionType::Short,
        }
    }

    /// The direction in which a fill on `side` moves a position: buying goes
    /// long, selling goes short.
    #[verifier::when_used_as_spec(spec_of_side)]
    pub fn of_side(side: OrderSide) -> (r: PositionType)
        ensures
            r == PositionType::spec_of_side(side),
    {
        match side {
            OrderSide::Bid => PositionType::Long,
            OrderSide::Ask => PositionType::Short,
        }
    }
}

/// A position as the exchange stores it, in its own integers.
#[derive(Clone, Copy, Debug, PartialEq, Eq, Structural)]
pub struct PositionInfo {
    pub account_id: AccountId,
    pub position_type: u8,
    pub price_pns: u128,
    pub lot_lns: u128,
    pub deposit_cns: u128,
    pub delta_pnl_cns: i128,
    pub premium_pnl_cns: i128,
}

/// Open perpetual contract position.
#[derive(Clone, Copy, Debug, PartialEq, Eq, Structural)]
pub struct Position {
    pub instant: StateInstant,
    pub perpetual_id: PerpetualId,
    pub account_id: AccountId,
    pub position_type: PositionType,
    pub entry_price: Decimal,
    pub size: Decimal,
    pub deposit: Decimal,
    pub delta_pnl: SignedDecimal,
    pub premium_pnl: SignedDecimal,
}

/// The decimal of `units`, or the overflow error where they do not fit.
pub open spec fn units_or_overflow(units: nat) -> Result<Decimal, DexError> {
    if units <= u128::MAX {
        Ok(Decimal { units: units as u128 })
    } else {
        Err(DexError::NumericOverflow)
    }
}

/// `raw · 10^-decimals` as a decimal, or the overflow error.
pub fn convert(converter: Converter, raw: u128) -> (r: Result<Decimal, DexError>)
    ensures
        r == units_or_overflow(converter.units_of(raw as nat)),
{
    match converter.from_unsigned(raw) {
        Some(v) => Ok(v),
        None => Err(DexError::NumericOverflow),
    }
}

impl Position {
    /// The position has size, its profit-and-loss parts are well formed and
    /// their sum is in range.
    pub open spec fn wf(&self) -> bool {
        &&& self.size.units > 0
        &&& self.delta_pnl.wf()
        &&& self.premium_pnl.wf()
        &&& -(u128::MAX as int) <= self.delta_pnl.value() + self.premium_pnl.value() <= u128::MAX
    }

    /// The position that a first fill opens.
    pub open spec fn spec_opened(
        instant: StateInstant,
        perpetual_id: PerpetualId,
        account_id: AccountId,
        position_type: PositionType,
        entry_price: Decimal,
        size: Decimal,
    ) -> Position {
        Position {
            instant,
            perpetual_id,
            account_id,
            position_type,
            entry_price,
            size,
            deposit: Decimal { units: 0 },
            delta_pnl: SignedDecimal { negative: false, units: 0 },
            premium_pnl: SignedDecimal { negative: false, units: 0 },
        }
    }

    /// The position that a first fill opens: no deposit and no profit or
    /// loss is known of it.
    pub fn opened(
        instant: StateInstant,
        perpetual_id: PerpetualId,
        account_id: AccountId,
        position_type: PositionType,
        entry_price: Decimal,
        size: Decimal,
    ) -> (r: Position)
        ensures
            r == Position::spec_opened(
                instant,
                perpetual_id,
                account_id,
                position_type,
                entry_price,
                size,
            ),
            size.units > 0 ==> r.wf(),
    {
        Position {
            instant,
            perpetual_id,
            account_id,
            position_type,
            entry_price,
            size,
            deposit: Decimal::zero(),
            delta_pnl: SignedDecimal::zero(),
            premium_pnl: SignedDecimal::zero(),
        }
    }

    /// What [`Position::new`] returns.
    pub open spec fn spec_new(
        instant: StateInstant,
        perpetual_id: PerpetualId,
        info: PositionInfo,
        collateral_converter: Converter,
        price_converter: Converter,
        size_converter: Converter,
    ) -> Result<Position, DexError> {
        let price = price_converter.units_of(info.price_pns as nat);
        let size = size_converter.units_of(info.lot_lns as nat);
        let deposit = collateral_converter.units_of(info.deposit_cns as nat);
        let delta = collateral_converter.units_of(vstd::math::abs(info.delta_pnl_cns as int) as nat);
        let premium = collateral_converter.units_of(
            vstd::math::abs(info.premium_pnl_cns as int) as nat,
        );
        if PositionType::spec_from_u8(info.position_type) is None || size == 0 {
            Err(DexError::InvalidEvent)
        } else if price > u128::MAX || size > u128::MAX || deposit > u128::MAX || delta > u128::MAX
            || premium > u128::MAX {
            Err(DexError::NumericOverflow)
        } else {
            let delta_pnl = SignedDecimal {
                negative: info.delta_pnl_cns < 0 && delta != 0,
                units: delta as u128,
            };
            let premium_pnl = SignedDecimal {
                negative: info.premium_pnl_cns < 0 && premium != 0,
                units: premium as u128,
            };
            if !(-(u128::MAX as int) <= delta_pnl.value() + premium_pnl.value() <= u128::MAX) {
                Err(DexError::NumericOverflow)
            } else {
                Ok(
                    Position {
                        instant,
                        perpetual_id,
                        account_id: info.account_id,
                        position_type: PositionType::spec_from_u8(info.position_type).unwrap(),
                        entry_price: Decimal { units: price as u128 },
                        size: Decimal { units: size as u128 },
                        deposit: Decimal { units: deposit as u128 },
                        delta_pnl,
                        premium_pnl,
                    },
                )
            }
        }
    }

    /// The position that the exchange stores as `info`, every quantity
    /// converted at its scale. A position without size or of an unknown type
    /// is rejected as invalid, a quantity out of range as an overflow.
    pub fn new(
        instant: StateInstant,
        perpetual_id: PerpetualId,
        info: &PositionInfo,
        collateral_converter: Converter,
        price_converter: Converter,
        size_converter: Converter,
    ) -> (r: Result<Position, DexError>)
        ensures
            r == Position::spec_new(
                instant,
                perpetual_id,
                *info,
                collateral_converter,
                price_converter,
                size_converter,
            ),
            r matches Ok(p) ==> p.wf(),
    {
        let position_type = match PositionType::from_u8(info.position_type) {
            Some(t) => t,
            None => {
                return Err(DexError::InvalidEvent);
            },
        };
        let size = size_converter.from_unsigned(info.lot_lns);
        if size == Some(Decimal::zero()) {
            return Err(DexError::InvalidEvent);
        }
        let entry_price = price_converter.from_unsigned(info.price_pns);
        let deposit = collateral_converter.from_unsigned(info.deposit_cns);
        let delta_pnl = collateral_converter.from_signed(info.delta_pnl_cns);
        let premium_pnl = collateral_converter.from_signed(info.premium_pnl_cns);
        match (entry_price, size, deposit, delta_pnl, premium_pnl) {
            (Some(entry_price), Some(size), Some(deposit), Some(delta_pnl), Some(premium_pnl)) => {
                if delta_pnl.checked_add(premium_pnl).is_none() {
                    return Err(DexError::NumericOverflow);
                }
                Ok(
                    Position {
                        instant,
                        perpetual_id,
                        account_id: info.account_id,
                        position_type,
                        entry_price,
                        size,
                        deposit,
                        delta_pnl,
                        premium_pnl,
                    },
                )
            },
            _ => Err(DexError::NumericOverflow),
        }
    }

    /// The entry price of a position of size `size` at `entry_price` after
    /// `fill_size` more has been bought or sold at `fill_price`: the average
    /// of the two prices, each weighted with its size.
    pub open spec fn spec_average_entry(
        entry_price: Decimal,
        size: Decimal,
        fill_price: Decimal,
        fill_size: Decimal,
    ) -> Option<Decimal> {
        match (entry_price.spec_checked_mul(size), fill_price.spec_checked_mul(fill_size)) {
            (Some(held), Some(filled)) => if held.units + filled.units > u128::MAX || size.units
                + fill_size.units > u128::MAX {
                None
            } else {
                Decimal { units: (held.units + filled.units) as u128 }.spec_checked_div(
                    Decimal { units: (size.units + fill_size.units) as u128 },
                )
            },
            _ => None,
        }
    }

    /// The entry price after a fill in the position's direction; none where
    /// the arithmetic leaves the range of the decimal type.
    pub fn average_entry(
        entry_price: Decimal,
        size: Decimal,
        fill_price: Decimal,
        fill_size: Decimal,
    ) -> (r: Option<Decimal>)
        ensures
            r == Position::spec_average_entry(entry_price, size, fill_price, fill_size),
    {
        let held = match entry_price.checked_mul(size) {
            Some(v) => v,
            None => {
                return None;
            },
        };
        let filled = match fill_price.checked_mul(fill_size) {
            Some(v) => v,
            None => {
                return None;
            },
        };
        let value = match held.checked_add(filled) {
            Some(v) => v,
            None => {
                return None;
            },
        };
        let total = match size.checked_add(fill_size) {
            Some(v) => v,
            None => {
                return None;
            },
        };
        value.checked_div(total)
    }

    /// The position of an account in a perpetual after a fill of `size` at
    /// `price` on `side`, given the position before. A fill in the position's
    /// direction adds to its size and averages the entry price; a fill
    /// against it takes from its size, closes it when the sizes are equal,
    /// and turns it around at the fill's price when the fill is the larger. A
    /// fill without a position before opens one. A fill of size zero changes
    /// nothing.
    pub open spec fn spec_filled(
        current: Option<Position>,
        instant: StateInstant,
        perpetual_id: PerpetualId,
        account_id: AccountId,
        side: OrderSide,
        price: Decimal,
        size: Decimal,
    ) -> Result<Option<Position>, DexError> {
        let direction = PositionType::spec_of_side(side);
        if size.units == 0 {
            Ok(current)
        } else {
            match current {
                None => Ok(
                    Some(
                        Position::spec_opened(
                            instant,
                            perpetual_id,
                            account_id,
                            direction,
                            price,
                            size,
                        ),
                    ),
                ),
                Some(p) => if p.position_type == direction {
                    match Position::spec_average_entry(p.entry_price, p.size, price, size) {
                        Some(entry_price) => Ok(
                            Some(
                                Position {
                                    instant,
                                    entry_price,
                                    size: Decimal { units: (p.size.units + size.units) as u128 },
                                    ..p
                                },
                            ),
                        ),
                        None => Err(DexError::NumericOverflow),
                    }
                } else if size.units < p.size.units {
                    Ok(
                        Some(
                            Position {
                                instant,
                                size: Decimal { units: (p.size.units - size.units) as u128 },
                                ..p
                            },
                        ),
                    )
                } else if size.units == p.size.units {
                    Ok(None)
                } else {
                    Ok(
                        Some(
                            Position::spec_opened(
                                instant,
                                perpetual_id,
                                account_id,
                                direction,
                                price,
                                Decimal { units: (size.units - p.size.units) as u128 },
                            ),
                        ),
                    )
                },
            }
        }
    }

    /// The position after a fill; see [`Position::spec_filled`].
    pub fn filled(
        current: Option<Position>,
        instant: StateInstant,
        perpetual_id: PerpetualId,
        account_id: AccountId,
        side: OrderSide,
        price: Decimal,
        size: Decimal,
    ) -> (r: Result<Option<Position>, DexError>)
        requires
            current matches Some(p) ==> p.wf(),
        ensures
            r == Position::spec_filled(
                current,
                instant,
                perpetual_id,
                account_id,
                side,
                price,
                size,
            ),
            r matches Ok(Some(p)) ==> p.wf(),
    {
        let direction = PositionType::of_side(side);
        if size.units == 0 {
            return Ok(current);
        }
        match current {
            None => Ok(
                Some(Position::opened(instant, perpetual_id, account_id, direction, price, size)),
            ),
            Some(p) => {
                if p.position_type == direction {
                    match Position::average_entry(p.entry_price, p.size, price, size) {
                        Some(entry_price) => Ok(
                            Some(
                                Position {
                                    instant,
                                    entry_price,
                                    size: Decimal { units: p.size.units + size.units },
                                    ..p
                                },
                            ),
                        ),
                        None => Err(DexError::NumericOverflow),
                    }
                } else if size.units < p.size.units {
                    Ok(
                        Some(
                            Position {
                                instant,
                                size: Decimal { units: p.size.units - size.units },
                                ..p
                            },
                        ),
                    )
                } else if size.units == p.size.units {
                    Ok(None)
                } else {
                    Ok(
                        Some(
                            Position::opened(
                                instant,
                                perpetual_id,
                                account_id,
                                direction,
                                price,
                                Decimal { units: size.units - p.size.units },
                            ),
                        ),
                    )
                }
            },
        }
    }

    /// The size of the position if it is long, else zero: what the position
    /// adds to the open interest.
    pub open spec fn spec_long_size(current: Option<Position>) -> Decimal {
        match current {
            Some(p) => if p.position_type == PositionType::Long {
                p.size
            } else {
                Decimal { units: 0 }
            },
            None => Decimal { units: 0 },
        }
    }

    /// The size of the position if it is long, else zero.
    pub fn long_size(current: Option<Position>) -> (r: Decimal)
        ensures
            r == Position::spec_long_size(current),
    {
        match current {
            Some(p) => {
                if p.position_type == PositionType::Long {
                    p.size
                } else {
                    Decimal::zero()
                }
            },
            None => Decimal::zero(),
        }
    }

    /// Instant the position state is consistent with or was last updated at.
    pub fn instant(&self) -> (r: StateInstant)
        ensures
            r == self.instant,
    {
        self.instant
    }

    /// ID of the perpetual contract.
    pub fn perpetual_id(&self) -> (r: PerpetualId)
        ensures
            r == self.perpetual_id,
    {
        self.perpetual_id
    }

    /// ID of the account holding the position.
    pub fn account_id(&self) -> (r: AccountId)
        ensures
            r == self.account_id,
    {
        self.account_id
    }

    /// Type of the position.
    pub fn position_type(&self) -> (r: PositionType)
        ensures
            r == self.position_type,
    {
        self.position_type
    }

    /// Position entry price.
    pub fn entry_price(&self) -> (r: Decimal)
        ensures
            r == self.entry_price,
    {
        self.entry_price
    }

    /// Size of the position.
    pub fn size(&self) -> (r: Decimal)
        ensures
            r == self.size,
    {
        self.size
    }

    /// Deposit (margin) locked in the position.
    pub fn deposit(&self) -> (r: Decimal)
        ensures
            r == self.deposit,
    {
        self.deposit
    }

    /// Unrealized PnL of the position: delta PnL plus premium PnL.
    pub fn pnl(&self) -> (r: SignedDecimal)
        requires
            self.wf(),
        ensures
            r.wf(),
            r.value() == self.delta_pnl.value() + self.premium_pnl.value(),
            r == SignedDecimal::of_value(self.delta_pnl.value() + self.premium_pnl.value()),
    {
        match self.delta_pnl.checked_add(self.premium_pnl) {
            Some(v) => v,
            None => SignedDecimal::zero(),
        }
    }

    /// Unrealized Delta PnL of the position.
    pub fn delta_pnl(&self) -> (r: SignedDecimal)
        ensures
            r == self.delta_pnl,
    {
        self.delta_pnl
    }

    /// Unrealized Premium PnL of the position.
    pub fn premium_pnl(&self) -> (r: SignedDecimal)
        ensures
            r == self.premium_pnl,
    {
        self.premium_pnl
    }
}

} // verus!
