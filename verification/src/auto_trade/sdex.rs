//! Market and limit orders against a simulated order book.

use vstd::prelude::*;
use crate::auto_trade::error::AutoTradeError;
use crate::auto_trade::storage::Signal;

verus! {

/// What the exchange filled.
#[derive(Clone, Copy, Debug, PartialEq, Eq, Structural)]
pub struct ExecutionResult {
    pub executed_amount: i128,
    pub executed_price: i128,
}

/// The smaller of two amounts.
pub open spec fn min_amount(a: int, b: int) -> int {
    if a <= b {
        a
    } else {
        b
    }
}

/// What a market order for `amount` on `signal` yields at time `now` when
/// the book holds `liquidity`; a book without an entry fills any amount.
pub open spec fn market_order(signal: Signal, amount: i128, now: u64, liquidity: Option<i128>) -> Result<
    ExecutionResult,
    AutoTradeError,
> {
    let available = match liquidity {
        Some(depth) => depth,
        None => amount,
    };
    if now >= signal.expiry {
        Err(AutoTradeError::SignalExpired)
    } else if available <= 0 {
        Err(AutoTradeError::InsufficientLiquidity)
    } else {
        Ok(
            ExecutionResult {
                executed_amount: min_amount(amount as int, available as int) as i128,
                executed_price: signal.price,
            },
        )
    }
}

/// What a limit order for `amount` on `signal` yields at time `now` when the
/// market trades at `market_price`; a market without a quote trades at the
/// signal's price.
pub open spec fn limit_order(signal: Signal, amount: i128, now: u64, market_price: Option<i128>) -> Result<
    ExecutionResult,
    AutoTradeError,
> {
    let quote = match market_price {
        Some(price) => price,
        None => signal.price,
    };
    if now >= signal.expiry {
        Err(AutoTradeError::SignalExpired)
    } else if quote > signal.price {
        Ok(ExecutionResult { executed_amount: 0, executed_price: 0 })
    } else {
        Ok(ExecutionResult { executed_amount: amount, executed_price: signal.price })
    }
}

/// Whether a recorded `balance` covers `amount`; no record counts as zero.
pub fn has_sufficient_balance(balance: Option<i128>, amount: i128) -> (r: bool)
    ensures
        r == (match balance {
            Some(held) => held >= amount,
            None => 0 >= amount,
        }),
{
    match balance {
        Some(held) => held >= amount,
        None => 0 >= amount,
    }
}

/// Fills a market order at the signal's price, as far as the book's
/// liquidity goes.
///
/// Fails with `SignalExpired` from the signal's expiry on, and with
/// `InsufficientLiquidity` when the book holds nothing.
pub fn execute_market_order(signal: &Signal, amount: i128, now: u64, liquidity: Option<i128>) -> (r:
    Result<ExecutionResult, AutoTradeError>)
    ensures
        r == market_order(*signal, amount, now, liquidity),
{
    if now >= signal.expiry {
        return Err(AutoTradeError::SignalExpired);
    }
    let available = match liquidity {
        Some(depth) => depth,
        None => amount,
    };
    if available <= 0 {
        return Err(AutoTradeError::InsufficientLiquidity);
    }
    let executed_amount = if amount <= available {
        amount
    } else {
        available
    };
    Ok(ExecutionResult { executed_amount, executed_price: signal.price })
}

/// Fills a limit order in full at the signal's price, or not at all when
/// the market trades above it.
///
/// Fails with `SignalExpired` from the signal's expiry on.
pub fn execute_limit_order(signal: &Signal, amount: i128, now: u64, market_price: Option<i128>) -> (r:
    Result<ExecutionResult, AutoTradeError>)
    ensures
        r == limit_order(*signal, amount, now, market_price),
{
    if now >= signal.expiry {
        return Err(AutoTradeError::SignalExpired);
    }
    let quote = match market_price {
        Some(price) => price,
        None => signal.price,
    };
    if quote > signal.price {
        return Ok(ExecutionResult { executed_amount: 0, executed_price: 0 });
    }
    Ok(ExecutionResult { executed_amount: amount, executed_price: signal.price })
}

} // verus!
