//! Exchange accounts.

use vstd::prelude::*;

use crate::error::DexError;
use crate::num::{Converter, Decimal, SignedDecimal};
use crate::state::keyed::{
    distinct, has_key, key_index, lemma_distinct_push, lemma_distinct_remove, lemma_key_index,
};
use crate::state::position::Position;
use crate::types::{AccountId, Address, PerpetualId, StateInstant};

verus! {

/// An account as the exchange stores it, in its own integers.
#[derive(Clone, Copy, Debug, PartialEq, Eq, Structural)]
pub struct AccountInfo {
    pub address: Address,
    pub balance_cns: u128,
    pub locked_balance_cns: u128,
    pub frozen: bool,
}

/// Exchange account.
#[derive(Clone, Debug)]
pub struct Account {
    pub instant: StateInstant,
    pub id: AccountId,
    pub address: Address,
    pub balance: Decimal,
    pub locked_balance: Decimal,
    pub frozen: bool,
    /// The positions of the account, at most one per perpetual contract.
    pub positions: Vec<Position>,
}

/// An account as a mathematical value.
pub struct AccountModel {
    pub instant: StateInstant,
    pub id: AccountId,
    pub address: Address,
    pub balance: Decimal,
    pub locked_balance: Decimal,
    pub frozen: bool,
    pub positions: Seq<Position>,
}

/// The perpetual contracts of the positions, in their order.
pub open spec fn position_keys(positions: Seq<Position>) -> Seq<u32> {
    Seq::new(positions.len(), |i: int| positions[i].perpetual_id)
}

/// The profit and loss of a position: its delta part plus its premium
/// part.
pub open spec fn position_pnl(position: Position) -> SignedDecimal {
    SignedDecimal::of_value(position.delta_pnl.value() + position.premium_pnl.value())
}

/// The sum of the positions' profit and loss, added up position by
/// position; none where the sum leaves the range of the type on the way.
pub open spec fn total_pnl(positions: Seq<Position>) -> Option<SignedDecimal>
    decreases positions.len(),
{
    if positions.len() == 0 {
        Some(SignedDecimal { negative: false, units: 0 })
    } else {
        match total_pnl(positions.drop_last()) {
            Some(before) => before.spec_checked_add(position_pnl(positions.last())),
            None => None,
        }
    }
}

/// Once the sum has left the range, it has done so however many positions
/// follow.
pub proof fn lemma_total_pnl_none(positions: Seq<Position>, i: int)
    requires
        0 <= i <= positions.len(),
        total_pnl(positions.take(i)) is None,
    ensures
        total_pnl(positions) is None,
    decreases positions.len() - i,
{
    if i < positions.len() {
        assert(positions.take(i + 1).drop_last() =~= positions.take(i));
        lemma_total_pnl_none(positions, i + 1);
    } else {
        assert(positions.take(i) =~= positions);
    }
}

impl View for Account {
    type V = AccountModel;

    open spec fn view(&self) -> AccountModel {
        AccountModel {
            instant: self.instant,
            id: self.id,
            address: self.address,
            balance: self.balance,
            locked_balance: self.locked_balance,
            frozen: self.frozen,
            positions: self.positions@,
        }
    }
}

impl AccountModel {
    /// The account holds at most one position per perpetual contract, and
    /// each is well formed.
    pub open spec fn wf(&self) -> bool {
        &&& distinct(position_keys(self.positions))
        &&& forall|i: int| 0 <= i < self.positions.len() ==> (#[trigger] self.positions[i]).wf()
    }

    /// The position in the perpetual contract, if the account has one.
    pub open spec fn position(&self, perpetual_id: PerpetualId) -> Option<Position> {
        if has_key(position_keys(self.positions), perpetual_id) {
            Some(self.positions[key_index(position_keys(self.positions), perpetual_id)])
        } else {
            None
        }
    }

    /// The balance that is free for trading: the balance less what orders
    /// lock, and nothing where they lock more than the balance.
    pub open spec fn available_balance(&self) -> Decimal {
        if self.locked_balance.units > self.balance.units {
            Decimal { units: 0 }
        } else {
            Decimal { units: (self.balance.units - self.locked_balance.units) as u128 }
        }
    }

    /// The account holding `position` in the perpetual contract, or none
    /// there where `position` is none. A new position joins at the end.
    pub open spec fn with_position(
        &self,
        instant: StateInstant,
        perpetual_id: PerpetualId,
        position: Option<Position>,
    ) -> AccountModel {
        let keys = position_keys(self.positions);
        let positions = if has_key(keys, perpetual_id) {
            match position {
                Some(p) => self.positions.update(key_index(keys, perpetual_id), p),
                None => self.positions.remove(key_index(keys, perpetual_id)),
            }
        } else {
            match position {
                Some(p) => self.positions.push(p),
                None => self.positions,
            }
        };
        AccountModel { instant, positions, ..*self }
    }

    /// The account with no balances and no positions that an
    /// account-created event announces.
    pub open spec fn from_event(instant: StateInstant, id: AccountId, address: Address) -> AccountModel {
        AccountModel {
            instant,
            id,
            address,
            balance: Decimal { units: 0 },
            locked_balance: Decimal { units: 0 },
            frozen: false,
            positions: Seq::empty(),
        }
    }
}

impl Account {
    /// The account is well formed as a value.
    pub open spec fn wf(&self) -> bool {
        self@.wf()
    }

    /// What [`Account::new`] returns.
    pub open spec fn spec_new(
        instant: StateInstant,
        id: AccountId,
        info: AccountInfo,
        positions: Seq<Position>,
        collateral_converter: Converter,
    ) -> Result<AccountModel, DexError> {
        let balance = collateral_converter.units_of(info.balance_cns as nat);
        let locked = collateral_converter.units_of(info.locked_balance_cns as nat);
        if balance > u128::MAX || locked > u128::MAX {
            Err(DexError::NumericOverflow)
        } else {
            Ok(
                AccountModel {
                    instant,
                    id,
                    address: info.address,
                    balance: Decimal { units: balance as u128 },
                    locked_balance: Decimal { units: locked as u128 },
                    frozen: info.frozen,
                    positions,
                },
            )
        }
    }

    /// The account that the exchange stores as `info`, with the given
    /// positions.
    pub fn new(
        instant: StateInstant,
        id: AccountId,
        info: &AccountInfo,
        positions: Vec<Position>,
        collateral_converter: Converter,
    ) -> (r: Result<Account, DexError>)
        ensures
            match Account::spec_new(instant, id, *info, positions@, collateral_converter) {
                Ok(m) => r is Ok && r.unwrap()@ == m,
                Err(e) => r == Err::<Account, DexError>(e),
            },
    {
        let balance = collateral_converter.from_unsigned(info.balance_cns);
        let locked_balance = collateral_converter.from_unsigned(info.locked_balance_cns);
        match (balance, locked_balance) {
            (Some(balance), Some(locked_balance)) => Ok(
                Account {
                    instant,
                    id,
                    address: info.address,
                    balance,
                    locked_balance,
                    frozen: info.frozen,
                    positions,
                },
            ),
            _ => Err(DexError::NumericOverflow),
        }
    }

    /// The account that an account-created event announces: no balances, no
    /// positions.
    pub fn from_event(instant: StateInstant, id: AccountId, address: Address) -> (r: Account)
        ensures
            r@ == AccountModel::from_event(instant, id, address),
            r.wf(),
    {
        let r = Account {
            instant,
            id,
            address,
            balance: Decimal::zero(),
            locked_balance: Decimal::zero(),
            frozen: false,
            positions: Vec::new(),
        };
        assert(r@.positions =~= Seq::<Position>::empty());
        r
    }

    /// The account of which only the ID and one position are known; its
    /// address is the zero address.
    pub fn from_position(instant: StateInstant, position: Position) -> (r: Account)
        requires
            position.wf(),
        ensures
            r@ == AccountModel::from_event(instant, position.account_id, Address::spec_zero()).with_position(
                instant,
                position.perpetual_id,
                Some(position),
            ),
            r.wf(),
    {
        let mut positions: Vec<Position> = Vec::new();
        positions.push(position);
        let r = Account {
            instant,
            id: position.account_id,
            address: Address::zero(),
            balance: Decimal::zero(),
            locked_balance: Decimal::zero(),
            frozen: false,
            positions,
        };
        proof {
            let empty = Seq::<Position>::empty();
            assert(!has_key(position_keys(empty), position.perpetual_id));
            assert(r@.positions =~= empty.push(position));
        }
        r
    }

    /// Instant the account state is consistent with or was last updated at.
    pub fn instant(&self) -> (r: StateInstant)
        ensures
            r == self.instant,
    {
        self.instant
    }

    /// ID of the account.
    pub fn id(&self) -> (r: AccountId)
        ensures
            r == self.id,
    {
        self.id
    }

    /// Account address.
    pub fn address(&self) -> (r: Address)
        ensures
            r == self.address,
    {
        self.address
    }

    /// The current balance of collateral tokens in this account,
    /// not including any open positions.
    pub fn balance(&self) -> (r: Decimal)
        ensures
            r == self.balance,
    {
        self.balance
    }

    /// The balance of collateral tokens locked by existing orders for this
    /// account. If this value exceeds [`Self::balance`], new opening orders
    /// cannot be placed.
    pub fn locked_balance(&self) -> (r: Decimal)
        ensures
            r == self.locked_balance,
    {
        self.locked_balance
    }

    /// The balance of collateral tokens available for trading.
    pub fn available_balance(&self) -> (r: Decimal)
        ensures
            r == self@.available_balance(),
            r.units == vstd::math::max(0, self.balance.units - self.locked_balance.units),
    {
        self.balance.saturating_sub(self.locked_balance)
    }

    /// Total unrealized PnL of all positions of the account; none where the
    /// sum leaves the range of the type.
    pub fn unrealized_pnl(&self) -> (r: Option<SignedDecimal>)
        requires
            self.wf(),
        ensures
            r == total_pnl(self.positions@),
            r matches Some(v) ==> v.wf(),
    {
        let mut total = SignedDecimal::zero();
        let mut i: usize = 0;
        while i < self.positions.len()
            invariant
                self.wf(),
                0 <= i <= self.positions@.len(),
                total.wf(),
                total_pnl(self.positions@.take(i as int)) == Some(total),
            decreases self.positions@.len() - i,
        {
            proof {
                assert(self.positions@.take(i + 1).drop_last() =~= self.positions@.take(i as int));
                assert(self.positions@[i as int].wf());
            }
            let pnl = self.positions[i].pnl();
            match total.checked_add(pnl) {
                Some(t) => {
                    total = t;
                },
                None => {
                    proof {
                        lemma_total_pnl_none(self.positions@, i + 1);
                    }
                    return None;
                },
            }
            i = i + 1;
        }
        proof {
            assert(self.positions@.take(i as int) =~= self.positions@);
        }
        Some(total)
    }

    /// Indicator of the account being frozen.
    pub fn frozen(&self) -> (r: bool)
        ensures
            r == self.frozen,
    {
        self.frozen
    }

    /// Positions the account has, up to one per each perpetual contract.
    pub fn positions(&self) -> (r: &Vec<Position>)
        ensures
            *r == self.positions,
    {
        &self.positions
    }

    /// The index of the position in the perpetual contract.
    fn position_index(&self, perpetual_id: PerpetualId) -> (r: Option<usize>)
        requires
            self.wf(),
        ensures
            match r {
                Some(i) => has_key(position_keys(self.positions@), perpetual_id) && i == key_index(
                    position_keys(self.positions@),
                    perpetual_id,
                ) && i < self.positions@.len(),
                None => !has_key(position_keys(self.positions@), perpetual_id),
            },
    {
        let ghost keys = position_keys(self.positions@);
        let mut i: usize = 0;
        while i < self.positions.len()
            invariant
                0 <= i <= self.positions@.len(),
                keys == position_keys(self.positions@),
                distinct(keys),
                forall|j: int| 0 <= j < i ==> keys[j] != perpetual_id,
            decreases self.positions@.len() - i,
        {
            if self.positions[i].perpetual_id == perpetual_id {
                proof {
                    assert(keys[i as int] == perpetual_id);
                    lemma_key_index(keys, i as int);
                }
                return Some(i);
            }
            i = i + 1;
        }
        None
    }

    /// The position in the perpetual contract, if the account has one.
    pub fn position(&self, perpetual_id: PerpetualId) -> (r: Option<Position>)
        requires
            self.wf(),
        ensures
            r == self@.position(perpetual_id),
            r matches Some(p) ==> p.wf() && p.perpetual_id == perpetual_id,
    {
        match self.position_index(perpetual_id) {
            Some(i) => {
                proof {
                    assert(position_keys(self.positions@)[i as int] == perpetual_id);
                }
                Some(self.positions[i])
            },
            None => None,
        }
    }

    /// Sets or clears the position in the perpetual contract.
    pub fn set_position(
        &mut self,
        instant: StateInstant,
        perpetual_id: PerpetualId,
        position: Option<Position>,
    )
        requires
            old(self).wf(),
            position matches Some(p) ==> p.wf() && p.perpetual_id == perpetual_id,
        ensures
            final(self).wf(),
            final(self)@ == old(self)@.with_position(instant, perpetual_id, position),
    {
        let ghost keys = position_keys(self.positions@);
        let ghost before = self.positions@;
        match self.position_index(perpetual_id) {
            Some(i) => {
                match position {
                    Some(p) => {
                        self.positions[i] = p;
                        proof {
                            assert(position_keys(self.positions@) =~= keys) by {
                                assert(keys[i as int] == perpetual_id);
                            }
                        }
                    },
                    None => {
                        self.positions.remove(i);
                        proof {
                            lemma_distinct_remove(keys, i as int);
                            assert(position_keys(self.positions@) =~= keys.remove(i as int));
                        }
                    },
                }
            },
            None => {
                match position {
                    Some(p) => {
                        self.positions.push(p);
                        proof {
                            lemma_distinct_push(keys, perpetual_id);
                            assert(position_keys(self.positions@) =~= keys.push(perpetual_id));
                        }
                    },
                    None => {},
                }
            },
        }
        self.instant = instant;
    }

    /// Marks the account as frozen or not.
    pub fn update_frozen(&mut self, instant: StateInstant, frozen: bool)
        ensures
            final(self)@ == (AccountModel { instant, frozen, ..old(self)@ }),
    {
        self.frozen = frozen;
        self.instant = instant;
    }

    /// Sets the balance.
    pub fn update_balance(&mut self, instant: StateInstant, balance: Decimal)
        ensures
            final(self)@ == (AccountModel { instant, balance, ..old(self)@ }),
    {
        self.balance = balance;
        self.instant = instant;
    }

    /// Sets the balance that orders lock.
    pub fn update_locked_balance(&mut self, instant: StateInstant, locked_balance: Decimal)
        ensures
            final(self)@ == (AccountModel { instant, locked_balance, ..old(self)@ }),
    {
        self.locked_balance = locked_balance;
        self.instant = instant;
    }

    /// Sets the address, once it is known.
    pub fn update_address(&mut self, instant: StateInstant, address: Address)
        ensures
            final(self)@ == (AccountModel { instant, address, ..old(self)@ }),
    {
        self.address = address;
        self.instant = instant;
    }

    /// A copy of the account.
    pub fn duplicate(&self) -> (r: Account)
        ensures
            r@ == self@,
    {
        Account {
            instant: self.instant,
            id: self.id,
            address: self.address,
            balance: self.balance,
            locked_balance: self.locked_balance,
            frozen: self.frozen,
            positions: self.positions.clone(),
        }
    }
}

/// The available balance is the balance less the locked balance, never below
/// zero.
pub proof fn lemma_available_balance(account: AccountModel)
    ensures
        account.available_balance().units == vstd::math::max(
            0,
            account.balance.units - account.locked_balance.units,
        ),
        account.available_balance().units <= account.balance.units,
{
}

} // verus!
