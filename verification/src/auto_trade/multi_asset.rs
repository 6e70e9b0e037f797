//! Orders for any asset pair. Every Stellar asset uses seven decimals.

use vstd::prelude::*;
use crate::auto_trade::error::AutoTradeError;
use crate::auto_trade::sdex::{
    execute_limit_order, execute_market_order, limit_order, market_order, ExecutionResult,
};
use crate::auto_trade::storage::Signal;

verus! {

/// Decimal precision of every Stellar asset.
pub const STELLAR_DECIMALS: u32 = 7;

/// Scale factor for seven decimals.
pub const STELLAR_SCALE: i128 = 10_000_000;

/// Places a market order for a positive amount.
///
/// Fails with `InvalidAmount` when `amount` is not positive, and otherwise
/// as the market order does.
pub fn execute_multi_asset_market_order(
    signal: &Signal,
    amount: i128,
    now: u64,
    liquidity: Option<i128>,
) -> (r: Result<ExecutionResult, AutoTradeError>)
    ensures
        r == if amount <= 0 {
            Err(AutoTradeError::InvalidAmount)
        } else {
            market_order(*signal, amount, now, liquidity)
        },
{
    if amount <= 0 {
        return Err(AutoTradeError::InvalidAmount);
    }
    execute_market_order(signal, amount, now, liquidity)
}

/// Places a limit order for a positive amount.
///
/// Fails with `InvalidAmount` when `amount` is not positive, and otherwise
/// as the limit order does.
pub fn execute_multi_asset_limit_order(
    signal: &Signal,
    amount: i128,
    now: u64,
    market_price: Option<i128>,
) -> (r: Result<ExecutionResult, AutoTradeError>)
    ensures
        r == if amount <= 0 {
            Err(AutoTradeError::InvalidAmount)
        } else {
            limit_order(*signal, amount, now, market_price)
        },
{
    if amount <= 0 {
        return Err(AutoTradeError::InvalidAmount);
    }
    execute_limit_order(signal, amount, now, market_price)
}

} // verus!
