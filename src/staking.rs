//! The relayer's stake: where it is held and the least amount accepted.
use vstd::prelude::*;
use vstd::string::StringExecFns;
use crate::error::Error;
use crate::types::{Address, U256};

verus! {

/// Staking settings of this relayer.
#[derive(Debug, Clone)]
pub struct FisherStaking {
    /// Address of the staking contract.
    pub staking_address: Address,
    /// This relayer's own address.
    pub fisher_address: Address,
    /// Least stake accepted.
    pub min_stake: U256,
}

impl FisherStaking {
    /// Staking settings with the given addresses and minimum.
    pub fn new(staking_address: Address, fisher_address: Address, min_stake: U256) -> (s: Self)
        ensures
            s.staking_address == staking_address,
            s.fisher_address == fisher_address,
            s.min_stake == min_stake,
    {
        FisherStaking { staking_address, fisher_address, min_stake }
    }

    /// Checks a stake before it is sent: an `Other` error exactly when
    /// `amount` is below the minimum.
    pub fn check_stake(&self, amount: &U256) -> (r: Result<(), Error>)
        ensures
            r.is_ok() == (amount.value() >= self.min_stake.value()),
            r matches Err(e) ==> e is Other,
    {
        if amount.lt(&self.min_stake) {
            return Err(Error::Other(String::from_str("Stake amount below minimum")));
        }
        Ok(())
    }
}

} // verus!
