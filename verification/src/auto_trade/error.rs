//! Error codes of the auto-trade contract.

use vstd::prelude::*;

verus! {

/// Every failure the auto-trade contract reports to its caller.
#[derive(Clone, Copy, Debug, PartialEq, Eq, Structural)]
pub enum AutoTradeError {
    /// The amount is not positive.
    InvalidAmount,
    /// No signal is stored under the identifier.
    SignalNotFound,
    /// The signal's expiry has been reached.
    SignalExpired,
    /// The user is not authorised to trade.
    Unauthorized,
    /// The user's balance does not cover the amount.
    InsufficientBalance,
    /// The exchange refused the order.
    SdexError,
    /// The order book holds nothing to fill the order with.
    InsufficientLiquidity,
    /// A position-sizing setting is out of range.
    InvalidSizingConfig,
}

} // verus!
