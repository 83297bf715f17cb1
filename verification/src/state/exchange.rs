//! The exchange: perpetual contracts and accounts, kept in step with the
//! blocks of events.

use vstd::prelude::*;

use crate::chain::Chain;
use crate::error::DexError;
use crate::num::{Converter, Decimal};
use crate::state::account::{Account, AccountModel};
use crate::state::keyed::{distinct, lemma_distinct_push, lemma_key_index};
use crate::state::perpetual::{PerpModel, Perpetual};
use crate::state::transition::{
    account_keys, perp_keys, ExchangeModel, ExchangeState, PendingFill, Scratch,
};
use crate::types::event::OrderContext;
use crate::types::{AccountId, PerpetualId, StateInstant};

verus! {

/// Exchange state snapshot.
///
/// A snapshot is taken once, at one block, and from then on only moves
/// forward by the blocks of events that are applied to it.
pub struct Exchange {
    pub chain: Chain,
    pub state: ExchangeState,
    pub perpetuals: Vec<Perpetual>,
    pub accounts: Vec<Account>,
}

/// What the engine remembers within one transaction: the open order request,
/// the maker fills that wait for their taker fill, and the transaction of
/// the event before.
pub struct TxScratch {
    pub order_context: Option<OrderContext>,
    pub pending_maker_fills: Vec<PendingFill>,
    pub prev_tx_index: Option<u64>,
}

impl View for TxScratch {
    type V = Scratch;

    open spec fn view(&self) -> Scratch {
        Scratch {
            order_context: self.order_context,
            pending: self.pending_maker_fills@,
            prev_tx_index: self.prev_tx_index,
        }
    }
}

impl TxScratch {
    /// Nothing remembered.
    pub fn new() -> (r: TxScratch)
        ensures
            r@ == Scratch::empty(),
    {
        TxScratch { order_context: None, pending_maker_fills: Vec::new(), prev_tx_index: None }
    }

    /// Forgets the order request and the pending fills when the event of
    /// transaction `tx_index` starts a later transaction than the event
    /// before.
    pub fn enter(&mut self, tx_index: u64)
        ensures
            final(self)@ == old(self)@.entering(tx_index),
    {
        match self.prev_tx_index {
            Some(prev) => {
                if prev < tx_index {
                    self.order_context = None;
                    self.pending_maker_fills = Vec::new();
                }
            },
            None => {},
        }
    }
}

/// The values of the perpetual contracts, in their order.
pub open spec fn perp_models(perpetuals: Seq<Perpetual>) -> Seq<PerpModel> {
    Seq::new(perpetuals.len(), |i: int| perpetuals[i]@)
}

/// The values of the accounts, in their order.
pub open spec fn account_models(accounts: Seq<Account>) -> Seq<AccountModel> {
    Seq::new(accounts.len(), |i: int| accounts[i]@)
}

impl View for Exchange {
    type V = ExchangeModel;

    open spec fn view(&self) -> ExchangeModel {
        ExchangeModel {
            state: self.state,
            perpetuals: perp_models(self.perpetuals@),
            accounts: account_models(self.accounts@),
        }
    }
}

impl Exchange {
    /// No two perpetual contracts and no two accounts share an ID, every
    /// book is consistent and every account well formed.
    pub open spec fn wf(&self) -> bool {
        &&& distinct(perp_keys(self@.perpetuals))
        &&& distinct(account_keys(self@.accounts))
        &&& forall|i: int| 0 <= i < self.perpetuals@.len() ==> (#[trigger] self.perpetuals@[i]).wf()
        &&& forall|i: int| 0 <= i < self.accounts@.len() ==> (#[trigger] self.accounts@[i]).wf()
    }

    /// An exchange at `instant` that follows no perpetual contract and knows
    /// no account yet.
    #[allow(clippy::too_many_arguments)]
    pub fn new(
        chain: Chain,
        instant: StateInstant,
        collateral_converter: Converter,
        funding_interval_blocks: u32,
        min_post: Decimal,
        min_settle: Decimal,
        recycle_fee: Decimal,
        is_halted: bool,
    ) -> (r: Exchange)
        ensures
            r.wf(),
            r.chain == chain,
            r@.state == (ExchangeState {
                instant,
                collateral_converter,
                funding_interval_blocks,
                min_post,
                min_settle,
                recycle_fee,
                is_halted,
            }),
            r@.perpetuals == Seq::<PerpModel>::empty(),
            r@.accounts == Seq::<AccountModel>::empty(),
    {
        let r = Exchange {
            chain,
            state: ExchangeState {
                instant,
                collateral_converter,
                funding_interval_blocks,
                min_post,
                min_settle,
                recycle_fee,
                is_halted,
            },
            perpetuals: Vec::new(),
            accounts: Vec::new(),
        };
        assert(r@.perpetuals =~= Seq::<PerpModel>::empty());
        assert(r@.accounts =~= Seq::<AccountModel>::empty());
        r
    }

    /// Where the perpetual contract stands among the contracts.
    pub fn find_perpetual(&self, id: PerpetualId) -> (r: Option<usize>)
        requires
            self.wf(),
        ensures
            match r {
                Some(i) => self@.has_perp(id) && i == self@.perp_index(id) && i
                    < self.perpetuals@.len() && self.perpetuals@[i as int].state.id == id,
                None => !self@.has_perp(id),
            },
    {
        let ghost keys = perp_keys(self@.perpetuals);
        let mut i: usize = 0;
        while i < self.perpetuals.len()
            invariant
                0 <= i <= self.perpetuals@.len(),
                keys == perp_keys(self@.perpetuals),
                distinct(keys),
                forall|j: int| 0 <= j < i ==> keys[j] != id,
            decreases self.perpetuals@.len() - i,
        {
            if self.perpetuals[i].state.id == id {
                proof {
                    assert(keys[i as int] == id);
                    lemma_key_index(keys, i as int);
                }
                return Some(i);
            }
            i = i + 1;
        }
        None
    }

    /// Where the account stands among the accounts.
    pub fn find_account(&self, id: AccountId) -> (r: Option<usize>)
        requires
            self.wf(),
        ensures
            match r {
                Some(i) => self@.has_account(id) && i == self@.account_index(id) && i
                    < self.accounts@.len() && self.accounts@[i as int].id == id,
                None => !self@.has_account(id),
            },
    {
        let ghost keys = account_keys(self@.accounts);
        let mut i: usize = 0;
        while i < self.accounts.len()
            invariant
                0 <= i <= self.accounts@.len(),
                keys == account_keys(self@.accounts),
                distinct(keys),
                forall|j: int| 0 <= j < i ==> keys[j] != id,
            decreases self.accounts@.len() - i,
        {
            if self.accounts[i].id == id {
                proof {
                    assert(keys[i as int] == id);
                    lemma_key_index(keys, i as int);
                }
                return Some(i);
            }
            i = i + 1;
        }
        None
    }

    /// Takes a perpetual contract among those the exchange follows. A
    /// contract whose ID the exchange follows already is refused.
    pub fn insert_perpetual(&mut self, perpetual: Perpetual) -> (r: Result<(), DexError>)
        requires
            old(self).wf(),
            perpetual.wf(),
        ensures
            final(self).wf(),
            final(self).chain == old(self).chain,
            !old(self)@.has_perp(perpetual.state.id) ==> r is Ok && final(self)@ == (ExchangeModel {
                perpetuals: old(self)@.perpetuals.push(perpetual@),
                ..old(self)@
            }),
            old(self)@.has_perp(perpetual.state.id) ==> r == Err::<(), DexError>(
                DexError::InvalidArgument,
            ) && final(self)@ == old(self)@,
    {
        if self.find_perpetual(perpetual.state.id).is_some() {
            return Err(DexError::InvalidArgument);
        }
        proof {
            lemma_distinct_push(perp_keys(self@.perpetuals), perpetual.state.id);
        }
        let ghost before = self@;
        self.perpetuals.push(perpetual);
        proof {
            assert(self@.perpetuals =~= before.perpetuals.push(perpetual@));
            assert(perp_keys(self@.perpetuals) =~= perp_keys(before.perpetuals).push(
                perpetual.state.id,
            ));
            assert(self@.accounts =~= before.accounts);
        }
        Ok(())
    }

    /// Takes an account among those the exchange knows. An account whose ID
    /// the exchange knows already is refused.
    pub fn insert_account(&mut self, account: Account) -> (r: Result<(), DexError>)
        requires
            old(self).wf(),
            account.wf(),
        ensures
            final(self).wf(),
            final(self).chain == old(self).chain,
            !old(self)@.has_account(account.id) ==> r is Ok && final(self)@ == (ExchangeModel {
                accounts: old(self)@.accounts.push(account@),
                ..old(self)@
            }),
            old(self)@.has_account(account.id) ==> r == Err::<(), DexError>(
                DexError::InvalidArgument,
            ) && final(self)@ == old(self)@,
    {
        if self.find_account(account.id).is_some() {
            return Err(DexError::InvalidArgument);
        }
        proof {
            lemma_distinct_push(account_keys(self@.accounts), account.id);
        }
        let ghost before = self@;
        self.accounts.push(account);
        proof {
            assert(self@.accounts =~= before.accounts.push(account@));
            assert(account_keys(self@.accounts) =~= account_keys(before.accounts).push(account.id));
            assert(self@.perpetuals =~= before.perpetuals);
        }
        Ok(())
    }

    /// Chain the snapshot collected from.
    pub fn chain(&self) -> (r: &Chain)
        ensures
            *r == self.chain,
    {
        &self.chain
    }

    /// Instant the snapshot is consistent with or was last updated at.
    pub fn instant(&self) -> (r: StateInstant)
        ensures
            r == self.state.instant,
    {
        self.state.instant
    }

    /// Converter between the exchange's integers and decimals for
    /// collateral token amounts.
    pub fn collateral_converter(&self) -> (r: Converter)
        ensures
            r == self.state.collateral_converter,
    {
        self.state.collateral_converter
    }

    /// Funding interval in blocks.
    pub fn funding_interval_blocks(&self) -> (r: u32)
        ensures
            r == self.state.funding_interval_blocks,
    {
        self.state.funding_interval_blocks
    }

    /// Minimal amount in collateral token that can be posted to the book.
    pub fn min_post(&self) -> (r: Decimal)
        ensures
            r == self.state.min_post,
    {
        self.state.min_post
    }

    /// Minimal amount in collateral token that can be settled.
    pub fn min_settle(&self) -> (r: Decimal)
        ensures
            r == self.state.min_settle,
    {
        self.state.min_settle
    }

    /// Amount in collateral token locked with each posted order to pay the
    /// account that cleans it up.
    pub fn recycle_fee(&self) -> (r: Decimal)
        ensures
            r == self.state.recycle_fee,
    {
        self.state.recycle_fee
    }

    /// Perpetual contracts tracked within the exchange.
    pub fn perpetuals(&self) -> (r: &Vec<Perpetual>)
        ensures
            *r == self.perpetuals,
    {
        &self.perpetuals
    }

    /// Accounts tracked within the exchange.
    pub fn accounts(&self) -> (r: &Vec<Account>)
        ensures
            *r == self.accounts,
    {
        &self.accounts
    }

    /// The perpetual contract with the given ID, if the exchange follows it.
    pub fn perpetual(&self, id: PerpetualId) -> (r: Option<&Perpetual>)
        requires
            self.wf(),
        ensures
            match r {
                Some(p) => self@.perp(id) == Some(p@) && p.wf(),
                None => self@.perp(id) is None,
            },
    {
        match self.find_perpetual(id) {
            Some(i) => Some(&self.perpetuals[i]),
            None => None,
        }
    }

    /// The account with the given ID, if the exchange knows it.
    pub fn account(&self, id: AccountId) -> (r: Option<&Account>)
        requires
            self.wf(),
        ensures
            match r {
                Some(a) => self@.account(id) == Some(a@) && a.wf(),
                None => self@.account(id) is None,
            },
    {
        match self.find_account(id) {
            Some(i) => Some(&self.accounts[i]),
            None => None,
        }
    }

    /// Indicates if exchange is being halted.
    pub fn is_halted(&self) -> (r: bool)
        ensures
            r == self.state.is_halted,
    {
        self.state.is_halted
    }

    /// A copy of the exchange.
    pub fn duplicate(&self) -> (r: Exchange)
        ensures
            r@ == self@,
            r.wf() == self.wf(),
    {
        let mut perpetuals: Vec<Perpetual> = Vec::new();
        let mut i: usize = 0;
        while i < self.perpetuals.len()
            invariant
                0 <= i <= self.perpetuals@.len(),
                perpetuals@.len() == i,
                forall|j: int|
                    0 <= j < i ==> (#[trigger] perpetuals@[j])@ == self.perpetuals@[j]@
                        && perpetuals@[j].wf() == self.perpetuals@[j].wf(),
            decreases self.perpetuals@.len() - i,
        {
            perpetuals.push(self.perpetuals[i].duplicate());
            i = i + 1;
        }
        let mut accounts: Vec<Account> = Vec::new();
        let mut k: usize = 0;
        while k < self.accounts.len()
            invariant
                0 <= k <= self.accounts@.len(),
                accounts@.len() == k,
                forall|j: int| 0 <= j < k ==> (#[trigger] accounts@[j])@ == self.accounts@[j]@,
            decreases self.accounts@.len() - k,
        {
            accounts.push(self.accounts[k].duplicate());
            k = k + 1;
        }
        let r = Exchange { chain: self.chain.duplicate(), state: self.state, perpetuals, accounts };
        proof {
            assert(r@.perpetuals =~= self@.perpetuals);
            assert(r@.accounts =~= self@.accounts);
            if self.wf() {
                assert forall|i: int| 0 <= i < r.perpetuals@.len() implies (#[trigger] r.perpetuals@[i]).wf() by {
                    assert(self.perpetuals@[i].wf());
                }
                assert forall|i: int| 0 <= i < r.accounts@.len() implies (#[trigger] r.accounts@[i]).wf() by {
                    assert(self.accounts@[i].wf());
                }
            }
            if r.wf() {
                assert forall|i: int| 0 <= i < self.perpetuals@.len() implies (#[trigger] self.perpetuals@[i]).wf() by {
                    assert(r.perpetuals@[i].wf());
                }
                assert forall|i: int| 0 <= i < self.accounts@.len() implies (#[trigger] self.accounts@[i]).wf() by {
                    assert(r.accounts@[i].wf());
                }
            }
        }
        r
    }
}

} // verus!
