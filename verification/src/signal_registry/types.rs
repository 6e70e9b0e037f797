//! Records of the signal registry.

use vstd::prelude::*;
use crate::address::Address;

verus! {

/// Where a signal stands in its life.
#[derive(Clone, Copy, Debug, PartialEq, Eq, Structural)]
pub enum SignalStatus {
    Pending,
    Active,
    Executed,
    Expired,
    Successful,
    Failed,
}

/// The side of the market that a signal recommends.
#[derive(Clone, Copy, Debug, PartialEq, Eq, Structural)]
pub enum SignalAction {
    Buy,
    Sell,
}

/// A trade signal with its running performance.
#[derive(Clone, Debug)]
pub struct Signal {
    pub id: u64,
    pub provider: Address,
    /// For example "XLM/USDC".
    pub asset_pair: String,
    pub action: SignalAction,
    pub price: i128,
    pub rationale: String,
    pub timestamp: u64,
    pub expiry: u64,
    pub status: SignalStatus,
    /// Number of trades that followed the signal.
    pub executions: u32,
    /// Sum of the returns of those trades, in basis points.
    pub total_roi: i128,
    /// Sum of the volumes of those trades.
    pub total_volume: i128,
}

/// Aggregated statistics of one signal.
#[derive(Clone, Copy, Debug, PartialEq, Eq, Structural)]
pub struct SignalStats {
    pub total_copies: u64,
    pub success_rate: u32,
    pub avg_return: i128,
    pub total_volume: i128,
}

impl Default for SignalStats {
    fn default() -> (stats: SignalStats)
        ensures
            stats == (SignalStats { total_copies: 0, success_rate: 0, avg_return: 0, total_volume: 0 }),
    {
        SignalStats { total_copies: 0, success_rate: 0, avg_return: 0, total_volume: 0 }
    }
}

/// The track record of one signal provider.
#[derive(Clone, Copy, Debug, PartialEq, Eq, Structural)]
pub struct ProviderPerformance {
    /// Signals that reached a final state.
    pub total_signals: u32,
    pub successful_signals: u32,
    pub failed_signals: u32,
    /// Share of successful signals in basis points.
    pub success_rate: u32,
    /// Average return in basis points.
    pub avg_return: i128,
    pub total_volume: i128,
}

/// One trade that followed a signal.
#[derive(Clone, Copy, Debug)]
pub struct TradeExecution {
    pub signal_id: u64,
    pub executor: Address,
    pub entry_price: i128,
    pub exit_price: i128,
    pub volume: i128,
    /// Return in basis points.
    pub roi: i128,
    pub timestamp: u64,
}

/// A trade as it is stored, under its identifier.
#[derive(Clone, Copy, Debug)]
pub struct TradeRecord {
    pub trade_id: u64,
    pub trade: TradeExecution,
}

/// Keys under which a host stores the fee records.
#[derive(Clone, Copy, Debug, PartialEq, Eq, Structural)]
pub enum FeeStorageKey {
    PlatformTreasury,
    ProviderTreasury,
    TreasuryBalances,
}

/// How the fee on one trade is split.
#[derive(Clone, Copy, Debug, PartialEq, Eq, Structural)]
pub struct FeeBreakdown {
    pub total_fee: i128,
    pub platform_fee: i128,
    pub provider_fee: i128,
    pub trade_amount_after_fee: i128,
}

/// An asset by its symbol and issuing contract.
#[derive(Clone, Debug)]
pub struct Asset {
    pub symbol: String,
    pub contract: Address,
}

} // verus!
