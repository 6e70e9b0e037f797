//! Error codes of provider staking.

use vstd::prelude::*;

verus! {

/// Every failure that provider staking reports.
#[derive(Clone, Copy, Debug, PartialEq, Eq, Structural)]
pub enum ContractError {
    /// The amount to stake is not positive.
    InvalidStakeAmount,
    /// The provider has no stake on record, or an empty one.
    NoStakeFound,
    /// The stake is locked until a later time.
    StakeLocked,
    /// The stake is below the required minimum.
    InsufficientStake,
}

} // verus!
