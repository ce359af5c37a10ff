//! System configuration: the rollup and host chains and their fill
//! ("orders") contract addresses. The configuration is loaded once by the
//! caller and passed by reference into every component; the engine holds
//! no ambient state.

use vstd::prelude::*;
use crate::types::Address;

verus! {

/// One chain's identity and its orders contract.
#[derive(Clone, Copy, Debug, PartialEq, Eq, Structural)]
pub struct ChainConfig {
    /// The chain id.
    pub chain_id: u64,
    /// The address of the orders contract on that chain, which accepts
    /// fill and initiate calls.
    pub orders_contract: Address,
}

/// The system constants for one deployment: a rollup chain and its host
/// chain.
#[derive(Clone, Copy, Debug, PartialEq, Eq, Structural)]
pub struct SystemConfig {
    /// The rollup chain.
    pub rollup: ChainConfig,
    /// The host chain.
    pub host: ChainConfig,
}

impl SystemConfig {
    /// Whether the configuration is well formed: the two chains are
    /// distinct.
    pub open spec fn wf(&self) -> bool {
        self.rollup.chain_id != self.host.chain_id
    }

    /// The configured orders contract for `chain_id`, if that chain is
    /// part of this deployment.
    pub open spec fn spec_orders_contract_for(&self, chain_id: u64) -> Option<Address> {
        if chain_id == self.rollup.chain_id {
            Some(self.rollup.orders_contract)
        } else if chain_id == self.host.chain_id {
            Some(self.host.orders_contract)
        } else {
            None
        }
    }

    /// Whether `chain_id` has a configured orders contract.
    pub open spec fn spec_knows_chain(&self, chain_id: u64) -> bool {
        self.spec_orders_contract_for(chain_id) is Some
    }

    /// Resolves the orders contract for `chain_id`.
    pub fn orders_contract_for(&self, chain_id: u64) -> (r: Option<Address>)
        ensures
            r == self.spec_orders_contract_for(chain_id),
    {
        if chain_id == self.rollup.chain_id {
            Some(self.rollup.orders_contract)
        } else if chain_id == self.host.chain_id {
            Some(self.host.orders_contract)
        } else {
            None
        }
    }
}

} // verus!
