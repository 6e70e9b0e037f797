//! Proposals, their kinds and states, and the constants that govern them.

use vstd::prelude::*;
use crate::address::Address;

verus! {

/// Voting period in seconds (7 days).
pub const VOTING_PERIOD_SECONDS: u64 = 604_800;

/// Emergency voting period in seconds (1 day).
pub const EMERGENCY_VOTING_PERIOD_SECONDS: u64 = 86_400;

/// Quorum: share of the total stake that must vote, in basis points (10%).
pub const QUORUM_BPS: i128 = 1_000;

/// Standard approval threshold in basis points (66%).
pub const APPROVAL_THRESHOLD_BPS: i128 = 6_600;

/// Emergency approval threshold in basis points (80%).
pub const EMERGENCY_THRESHOLD_BPS: i128 = 8_000;

/// Basis points that make up a whole.
pub const BPS_DENOMINATOR: i128 = 10_000;

/// Proposal deposit in stroops (1 000 XLM at 10 000 000 stroops per XLM).
pub const PROPOSAL_DEPOSIT: i128 = 10_000_000_000;

/// Minimum number of oracles that must remain after a removal.
pub const MIN_ORACLES: u32 = 2;

/// Keys under which a host stores the governance records.
#[derive(Clone, Copy, Debug)]
pub enum GovernanceKey {
    /// Counter for proposal identifiers.
    ProposalCounter,
    /// Individual proposal by identifier.
    Proposal(u64),
    /// Whether `(proposal_id, voter)` has already cast a ballot.
    HasVoted(u64, Address),
    /// Total stake in the governance system.
    TotalStaked,
    /// Stake balance of a given address.
    Stake(Address),
    /// Governance admin.
    GovAdmin,
}

/// The kind of change a proposal requests.
#[derive(Clone, Copy, Debug, PartialEq, Eq, Structural)]
pub enum ProposalType {
    /// Add a new oracle source.
    AddOracle,
    /// Remove an existing oracle source.
    RemoveOracle,
    /// Update a numbered oracle parameter.
    UpdateParameter,
    /// Pause all oracle activity (shorter window, higher threshold).
    EmergencyPause,
}

/// Lifecycle status of a proposal.
#[derive(Clone, Copy, Debug, PartialEq, Eq, Structural)]
pub enum ProposalStatus {
    /// Accepting votes.
    Active,
    /// Voting ended without reaching quorum or approval; deposit burned.
    Failed,
    /// Approved and successfully executed; deposit returned.
    Executed,
    /// Approved but execution failed; deposit still locked, may be retried.
    ExecutionFailed,
    /// Cancelled by the governance admin; deposit returned.
    Cancelled,
}

/// A governance proposal as it is stored.
#[derive(Clone, Debug)]
pub struct OracleProposal {
    /// Unique identifier, assigned in increasing order from 1.
    pub id: u64,
    /// Account that created the proposal and paid the deposit.
    pub proposer: Address,
    /// Category of change being requested.
    pub proposal_type: ProposalType,
    /// Human-readable rationale.
    pub description: String,
    /// Weighted votes in favour.
    pub votes_for: i128,
    /// Weighted votes against.
    pub votes_against: i128,
    /// Timestamp from which no more votes are accepted.
    pub voting_ends: u64,
    /// Current lifecycle state.
    pub status: ProposalStatus,
    /// Change to apply, read according to `proposal_type`:
    /// an oracle address for `AddOracle` and `RemoveOracle`, a little-endian
    /// `(u64 key, i128 value)` pair for `UpdateParameter`, nothing for
    /// `EmergencyPause`.
    pub execution_payload: Vec<u8>,
    /// Deposit in stroops locked at creation.
    pub deposit: i128,
}

/// Marker that `voter` has cast a ballot on proposal `proposal_id`.
#[derive(Clone, Copy, Debug)]
pub struct Ballot {
    pub proposal_id: u64,
    pub voter: Address,
}

/// Length of the voting window of a proposal of the given kind, in seconds.
pub open spec fn voting_window(kind: ProposalType) -> int {
    if kind == ProposalType::EmergencyPause {
        EMERGENCY_VOTING_PERIOD_SECONDS as int
    } else {
        VOTING_PERIOD_SECONDS as int
    }
}

/// Approval threshold of a proposal of the given kind, in basis points.
pub open spec fn threshold_bps(kind: ProposalType) -> int {
    if kind == ProposalType::EmergencyPause {
        EMERGENCY_THRESHOLD_BPS as int
    } else {
        APPROVAL_THRESHOLD_BPS as int
    }
}

/// No transition leaves these states.
pub open spec fn is_terminal(status: ProposalStatus) -> bool {
    status == ProposalStatus::Executed || status == ProposalStatus::Failed || status
        == ProposalStatus::Cancelled
}

/// The deposit is still held in escrow in these states.
pub open spec fn deposit_locked(status: ProposalStatus) -> bool {
    status == ProposalStatus::Active || status == ProposalStatus::ExecutionFailed
}

/// The deposit has been credited back to the proposer in these states.
pub open spec fn deposit_returned(status: ProposalStatus) -> bool {
    status == ProposalStatus::Executed || status == ProposalStatus::Cancelled
}

/// The deposit has been forfeited in this state.
pub open spec fn deposit_burned(status: ProposalStatus) -> bool {
    status == ProposalStatus::Failed
}

impl ProposalType {
    /// Length of this kind's voting window in seconds.
    pub fn voting_period(&self) -> (secs: u64)
        ensures
            secs == voting_window(*self),
    {
        match self {
            ProposalType::EmergencyPause => EMERGENCY_VOTING_PERIOD_SECONDS,
            _ => VOTING_PERIOD_SECONDS,
        }
    }

    /// This kind's approval threshold in basis points.
    pub fn approval_threshold(&self) -> (bps: i128)
        ensures
            bps == threshold_bps(*self),
    {
        match self {
            ProposalType::EmergencyPause => EMERGENCY_THRESHOLD_BPS,
            _ => APPROVAL_THRESHOLD_BPS,
        }
    }
}

} // verus!
