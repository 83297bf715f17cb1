//! The chain an exchange is deployed on.

use vstd::prelude::*;

use crate::types::{Address, PerpetualId};

verus! {

/// Chain the exchange is operating on.
#[derive(Clone, Debug)]
pub struct Chain {
    pub chain_id: u64,
    pub collateral_token: Address,
    pub deployed_at_block: u64,
    pub exchange: Address,
    pub perpetuals: Vec<PerpetualId>,
}

impl Chain {
    /// The exchange deployed on the test network, with the perpetual
    /// contracts 16, 32, 48, 64 and 256.
    pub fn testnet() -> (r: Chain)
        ensures
            r.chain_id == 10143,
            r.deployed_at_block == 62953,
            r.collateral_token == (Address {
                high: 0xa9012a05,
                low: 0x5bd4e0edff8ce09f960291c09d5322dc,
            }),
            r.exchange == (Address { high: 0x1964c32f, low: 0x0be608e7d29302aff5e61268e72080cc }),
            r.perpetuals@ == seq![16u32, 32u32, 48u32, 64u32, 256u32],
    {
        let mut perpetuals: Vec<PerpetualId> = Vec::new();
        perpetuals.push(16);
        perpetuals.push(32);
        perpetuals.push(48);
        perpetuals.push(64);
        perpetuals.push(256);
        assert(perpetuals@ =~= seq![16u32, 32u32, 48u32, 64u32, 256u32]);
        Chain {
            chain_id: 10143,
            collateral_token: Address::new(0xa9012a05, 0x5bd4e0edff8ce09f960291c09d5322dc),
            deployed_at_block: 62953,
            exchange: Address::new(0x1964c32f, 0x0be608e7d29302aff5e61268e72080cc),
            perpetuals,
        }
    }

    /// An exchange deployed elsewhere.
    pub fn custom(
        chain_id: u64,
        collateral_token: Address,
        deployed_at_block: u64,
        exchange: Address,
        perpetuals: Vec<PerpetualId>,
    ) -> (r: Chain)
        ensures
            r.chain_id == chain_id,
            r.collateral_token == collateral_token,
            r.deployed_at_block == deployed_at_block,
            r.exchange == exchange,
            r.perpetuals == perpetuals,
    {
        Chain { chain_id, collateral_token, deployed_at_block, exchange, perpetuals }
    }

    pub fn chain_id(&self) -> (r: u64)
        ensures
            r == self.chain_id,
    {
        self.chain_id
    }

    pub fn collateral_token(&self) -> (r: Address)
        ensures
            r == self.collateral_token,
    {
        self.collateral_token
    }

    pub fn deployed_at_block(&self) -> (r: u64)
        ensures
            r == self.deployed_at_block,
    {
        self.deployed_at_block
    }

    pub fn exchange(&self) -> (r: Address)
        ensures
            r == self.exchange,
    {
        self.exchange
    }

    pub fn perpetuals(&self) -> (r: &Vec<PerpetualId>)
        ensures
            *r == self.perpetuals,
    {
        &self.perpetuals
    }

    /// A copy of the chain.
    pub fn duplicate(&self) -> (r: Chain)
        ensures
            r.chain_id == self.chain_id,
            r.collateral_token == self.collateral_token,
            r.deployed_at_block == self.deployed_at_block,
            r.exchange == self.exchange,
            r.perpetuals@ == self.perpetuals@,
    {
        Chain {
            chain_id: self.chain_id,
            collateral_token: self.collateral_token,
            deployed_at_block: self.deployed_at_block,
            exchange: self.exchange,
            perpetuals: self.perpetuals.clone(),
        }
    }
}

} // verus!
