//! Error codes surfaced by the oracle contract and its governance engine.

use vstd::prelude::*;

verus! {

/// Every failure the oracle contract reports to its caller.
#[derive(Clone, Copy, Debug, PartialEq, Eq, Structural)]
pub enum OracleError {
    /// The caller is not the governance admin, or no admin is configured.
    Unauthorized,
    /// No proposal is stored under the requested identifier.
    OracleNotFound,
    /// An amount is out of range, a payload is malformed, or the action is
    /// not valid for the proposal's current state or time.
    InvalidPrice,
    /// The ballot or the oracle is already recorded.
    OracleAlreadyExists,
    /// The stake does not cover the proposal deposit, or a removal would
    /// leave too few oracles.
    InsufficientOracles,
    /// The voter holds no stake and therefore no voting weight.
    LowReputation,
}

} // verus!
