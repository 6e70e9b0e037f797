//! The governance state as mathematical data, and every operation of the
//! engine as a function from one state to the next.

use vstd::prelude::*;
use crate::address::Address;
use crate::oracle::errors::OracleError;
use crate::oracle::ledger::{
    amounts_non_negative, balance_of, credited, lemma_balance_at_most_sum, lemma_with_balance,
    sum_amounts, unique_addresses, StakeAccount,
};
use crate::oracle::proposal::{
    deposit_burned, deposit_locked, voting_window, Ballot, OracleProposal, ProposalStatus,
    ProposalType, PROPOSAL_DEPOSIT,
};
use crate::oracle::registry::{lemma_apply_wf, ConfigState};
use crate::oracle::tally::executable;

verus! {

/// What one proposal contributes to the locked deposits (`burned` false) or
/// to the burned deposits (`burned` true): its deposit or nothing.
pub open spec fn escrow_share(proposal: OracleProposal, burned: bool) -> int {
    if burned && deposit_burned(proposal.status) || !burned && deposit_locked(proposal.status) {
        proposal.deposit as int
    } else {
        0
    }
}

/// The sum of the deposits that are locked (`burned` false) or burned
/// (`burned` true).
pub open spec fn escrow_sum(proposals: Seq<OracleProposal>, burned: bool) -> int
    decreases proposals.len(),
{
    if proposals.len() == 0 {
        0
    } else {
        escrow_sum(proposals.drop_last(), burned) + escrow_share(proposals.last(), burned)
    }
}

/// The deposits of proposals that are still active or await a retry.
pub open spec fn locked_deposits(proposals: Seq<OracleProposal>) -> int {
    escrow_sum(proposals, false)
}

/// The deposits of proposals that failed.
pub open spec fn burned_deposits(proposals: Seq<OracleProposal>) -> int {
    escrow_sum(proposals, true)
}

/// The proposal stored at position `i` carries identifier `i + 1`, the fixed
/// deposit and tallies that are not negative.
pub open spec fn proposal_in_order(proposal: OracleProposal, i: int) -> bool {
    &&& proposal.id == i + 1
    &&& proposal.deposit == PROPOSAL_DEPOSIT
    &&& proposal.votes_for >= 0
    &&& proposal.votes_against >= 0
}

/// Every proposal is in order at its position.
pub open spec fn proposals_in_order(proposals: Seq<OracleProposal>) -> bool {
    forall|i: int|
        0 <= i < proposals.len() ==> proposal_in_order(#[trigger] proposals[i], i)
}

/// `proposal` with another status.
pub open spec fn with_status(proposal: OracleProposal, status: ProposalStatus) -> OracleProposal {
    OracleProposal { status, ..proposal }
}

/// `proposal` after a ballot of `weight` was added to one of its tallies.
pub open spec fn with_ballot(proposal: OracleProposal, support: bool, weight: int) -> OracleProposal {
    if support {
        OracleProposal { votes_for: (proposal.votes_for + weight) as i128, ..proposal }
    } else {
        OracleProposal { votes_against: (proposal.votes_against + weight) as i128, ..proposal }
    }
}

/// The tally that a ballot would be added to.
pub open spec fn tally_for(proposal: OracleProposal, support: bool) -> int {
    if support {
        proposal.votes_for as int
    } else {
        proposal.votes_against as int
    }
}

/// Everything the governance engine owns.
pub struct GovernanceState {
    /// The governance admin, once initialised.
    pub admin: Option<Address>,
    /// One account per address that ever staked.
    pub accounts: Seq<StakeAccount>,
    /// The running total of all stake.
    pub total_staked: i128,
    /// Every proposal ever created, the one with identifier `n` at `n - 1`.
    pub proposals: Seq<OracleProposal>,
    /// Every ballot ever cast.
    pub ballots: Seq<Ballot>,
    /// The oracle configuration that executed proposals change.
    pub config: ConfigState,
}

impl GovernanceState {
    /// The state before anything has happened: no admin, no stake, no
    /// proposals, no ballots, no oracles.
    pub open spec fn empty() -> GovernanceState {
        GovernanceState {
            admin: None,
            accounts: Seq::empty(),
            total_staked: 0,
            proposals: Seq::empty(),
            ballots: Seq::empty(),
            config: ConfigState::empty(),
        }
    }

    /// The staked balance of `who`.
    pub open spec fn stake_of(self, who: Address) -> int {
        balance_of(self.accounts, who)
    }

    /// A proposal with this identifier exists.
    pub open spec fn has_proposal(self, id: u64) -> bool {
        1 <= id <= self.proposals.len()
    }

    /// The proposal with this identifier.
    pub open spec fn proposal(self, id: u64) -> OracleProposal {
        self.proposals[id - 1]
    }

    /// `voter` has cast a ballot on proposal `id`.
    pub open spec fn has_voted(self, id: u64, voter: Address) -> bool {
        self.ballots.contains(Ballot { proposal_id: id, voter })
    }

    /// The invariant of the engine: accounts are unique and not negative,
    /// proposals are numbered from 1 in order, no ballot is recorded twice,
    /// and the running total accounts for every balance, every locked
    /// deposit and every burned deposit.
    pub open spec fn wf(self) -> bool {
        &&& unique_addresses(self.accounts)
        &&& amounts_non_negative(self.accounts)
        &&& proposals_in_order(self.proposals)
        &&& self.ballots.no_duplicates()
        &&& self.config.wf()
        &&& self.total_staked == sum_amounts(self.accounts) + locked_deposits(self.proposals)
            + burned_deposits(self.proposals)
    }

    /// The state in which `id` has status `status`.
    pub open spec fn set_status(self, id: u64, status: ProposalStatus) -> GovernanceState {
        GovernanceState {
            proposals: self.proposals.update(id - 1, with_status(self.proposal(id), status)),
            ..self
        }
    }

    /// The state after `delta` was added to the balance of `who`.
    pub open spec fn credit(self, who: Address, delta: int) -> GovernanceState {
        GovernanceState { accounts: credited(self.accounts, who, delta), ..self }
    }

    // ----- initialisation -----

    /// Installing the governance admin.
    pub open spec fn initialize(self, admin: Address) -> GovernanceState {
        GovernanceState { admin: Some(admin), ..self }
    }

    // ----- stake ledger -----

    /// A deposit is refused when the amount is not positive or the running
    /// total cannot hold it.
    pub open spec fn deposit_result(self, amount: i128) -> Result<(), OracleError> {
        if amount <= 0 || self.total_staked + amount > i128::MAX {
            Err(OracleError::InvalidPrice)
        } else {
            Ok(())
        }
    }

    /// An accepted deposit raises the balance and the running total.
    pub open spec fn after_deposit(self, staker: Address, amount: i128) -> GovernanceState {
        if self.deposit_result(amount) is Ok {
            GovernanceState {
                accounts: credited(self.accounts, staker, amount as int),
                total_staked: (self.total_staked + amount) as i128,
                ..self
            }
        } else {
            self
        }
    }

    /// A withdrawal is refused when the amount is not positive or exceeds
    /// the balance.
    pub open spec fn withdraw_result(self, staker: Address, amount: i128) -> Result<
        (),
        OracleError,
    > {
        if amount <= 0 || amount > self.stake_of(staker) {
            Err(OracleError::InvalidPrice)
        } else {
            Ok(())
        }
    }

    /// An accepted withdrawal lowers the balance and the running total, the
    /// total never below zero.
    pub open spec fn after_withdraw(self, staker: Address, amount: i128) -> GovernanceState {
        if self.withdraw_result(staker, amount) is Ok {
            GovernanceState {
                accounts: credited(self.accounts, staker, -amount),
                total_staked: if self.total_staked - amount < 0 {
                    0
                } else {
                    (self.total_staked - amount) as i128
                },
                ..self
            }
        } else {
            self
        }
    }

    // ----- proposal creation -----

    /// Creation is refused with `InsufficientOracles` when the proposer's
    /// stake does not cover the deposit, and with `InvalidPrice` when the
    /// identifier or the end of the voting window cannot be represented.
    /// Otherwise the new identifier is the number of proposals plus one.
    pub open spec fn create_result(self, proposer: Address, kind: ProposalType, now: u64) -> Result<
        u64,
        OracleError,
    > {
        if self.stake_of(proposer) < PROPOSAL_DEPOSIT {
            Err(OracleError::InsufficientOracles)
        } else if self.proposals.len() >= u64::MAX || now + voting_window(kind) > u64::MAX {
            Err(OracleError::InvalidPrice)
        } else {
            Ok((self.proposals.len() + 1) as u64)
        }
    }

    /// The proposal that a successful creation stores.
    pub open spec fn created(
        self,
        proposer: Address,
        kind: ProposalType,
        description: String,
        payload: Vec<u8>,
        now: u64,
    ) -> OracleProposal {
        OracleProposal {
            id: (self.proposals.len() + 1) as u64,
            proposer,
            proposal_type: kind,
            description,
            votes_for: 0,
            votes_against: 0,
            voting_ends: (now + voting_window(kind)) as u64,
            status: ProposalStatus::Active,
            execution_payload: payload,
            deposit: PROPOSAL_DEPOSIT,
        }
    }

    /// A successful creation takes the deposit out of the proposer's balance
    /// (not out of the running total) and stores the new active proposal.
    pub open spec fn after_create(
        self,
        proposer: Address,
        kind: ProposalType,
        description: String,
        payload: Vec<u8>,
        now: u64,
    ) -> GovernanceState {
        if self.create_result(proposer, kind, now) is Ok {
            GovernanceState {
                accounts: credited(self.accounts, proposer, -PROPOSAL_DEPOSIT),
                proposals: self.proposals.push(
                    self.created(proposer, kind, description, payload, now),
                ),
                ..self
            }
        } else {
            self
        }
    }

    // ----- resolution -----

    /// Marking `id` as failed. The deposit is burned: no balance changes.
    pub open spec fn expire(self, id: u64) -> GovernanceState {
        self.set_status(id, ProposalStatus::Failed)
    }

    /// Executing `id`: the requested change is applied to the oracle
    /// configuration. If that succeeds the proposal is executed and its
    /// deposit goes back to the proposer; if not, the proposal awaits a
    /// retry and nothing else changes.
    pub open spec fn execute(self, id: u64) -> GovernanceState {
        let p = self.proposal(id);
        match self.config.apply(p.proposal_type, p.execution_payload@) {
            Ok(config) => GovernanceState { config, ..self }.set_status(
                id,
                ProposalStatus::Executed,
            ).credit(p.proposer, p.deposit as int),
            Err(_) => self.set_status(id, ProposalStatus::ExecutionFailed),
        }
    }

    /// Whether `id` has quorum and approval against the current total stake.
    pub open spec fn can_execute(self, id: u64) -> bool {
        executable(self.proposal(id), self.total_staked as int)
    }

    // ----- voting -----

    /// A vote is refused, in this order: with `OracleNotFound` when the
    /// proposal does not exist; with `InvalidPrice` when it is not active or
    /// its window has closed; with `OracleAlreadyExists` when the voter has
    /// voted on it before; with `LowReputation` when the voter holds no
    /// stake; with `InvalidPrice` when the tally cannot hold the weight.
    pub open spec fn vote_result(self, id: u64, voter: Address, support: bool, now: u64) -> Result<
        (),
        OracleError,
    > {
        if !self.has_proposal(id) {
            Err(OracleError::OracleNotFound)
        } else if self.proposal(id).status != ProposalStatus::Active {
            Err(OracleError::InvalidPrice)
        } else if now >= self.proposal(id).voting_ends {
            Err(OracleError::InvalidPrice)
        } else if self.has_voted(id, voter) {
            Err(OracleError::OracleAlreadyExists)
        } else if self.stake_of(voter) == 0 {
            Err(OracleError::LowReputation)
        } else if tally_for(self.proposal(id), support) + self.stake_of(voter) > i128::MAX {
            Err(OracleError::InvalidPrice)
        } else {
            Ok(())
        }
    }

    /// Recording the ballot of `voter` on `id` with the voter's current
    /// balance as weight.
    pub open spec fn record_ballot(self, id: u64, voter: Address, support: bool) -> GovernanceState {
        GovernanceState {
            proposals: self.proposals.update(
                id - 1,
                with_ballot(self.proposal(id), support, self.stake_of(voter)),
            ),
            ballots: self.ballots.push(Ballot { proposal_id: id, voter }),
            ..self
        }
    }

    /// The window of active proposal `id` has closed at `now`.
    pub open spec fn is_overdue(self, id: u64, now: u64) -> bool {
        self.has_proposal(id) && self.proposal(id).status == ProposalStatus::Active && now
            >= self.proposal(id).voting_ends
    }

    /// A vote on an overdue proposal marks it failed. An accepted vote is
    /// recorded and, if the proposal then has quorum and approval, the
    /// proposal is executed at once. Any other refused vote changes nothing.
    pub open spec fn after_vote(self, id: u64, voter: Address, support: bool, now: u64) -> GovernanceState {
        if self.is_overdue(id, now) {
            self.expire(id)
        } else if self.vote_result(id, voter, support, now) is Ok {
            let recorded = self.record_ballot(id, voter, support);
            if recorded.can_execute(id) {
                recorded.execute(id)
            } else {
                recorded
            }
        } else {
            self
        }
    }

    // ----- finalisation, retry, cancellation -----

    /// Finalising does nothing unless the proposal is overdue; an overdue
    /// proposal is executed if it has quorum and approval and marked failed
    /// if not.
    pub open spec fn after_finalise(self, id: u64, now: u64) -> GovernanceState {
        if self.is_overdue(id, now) {
            if self.can_execute(id) {
                self.execute(id)
            } else {
                self.expire(id)
            }
        } else {
            self
        }
    }

    /// Finalising reports the status the proposal has afterwards, or
    /// `OracleNotFound` when it does not exist.
    pub open spec fn finalise_result(self, id: u64, now: u64) -> Result<
        ProposalStatus,
        OracleError,
    > {
        if !self.has_proposal(id) {
            Err(OracleError::OracleNotFound)
        } else {
            Ok(self.after_finalise(id, now).proposal(id).status)
        }
    }

    /// A retry is refused with `OracleNotFound` when the proposal does not
    /// exist and with `InvalidPrice` when it does not await a retry.
    pub open spec fn retry_result(self, id: u64) -> Result<(), OracleError> {
        if !self.has_proposal(id) {
            Err(OracleError::OracleNotFound)
        } else if self.proposal(id).status != ProposalStatus::ExecutionFailed {
            Err(OracleError::InvalidPrice)
        } else {
            Ok(())
        }
    }

    /// An accepted retry executes the proposal again.
    pub open spec fn after_retry(self, id: u64) -> GovernanceState {
        if self.retry_result(id) is Ok {
            self.execute(id)
        } else {
            self
        }
    }

    /// A cancellation is refused, in this order: with `Unauthorized` when
    /// the caller is not the configured admin; with `OracleNotFound` when
    /// the proposal does not exist; with `InvalidPrice` when it is not
    /// active.
    pub open spec fn cancel_result(self, caller: Address, id: u64) -> Result<(), OracleError> {
        if self.admin != Some(caller) {
            Err(OracleError::Unauthorized)
        } else if !self.has_proposal(id) {
            Err(OracleError::OracleNotFound)
        } else if self.proposal(id).status != ProposalStatus::Active {
            Err(OracleError::InvalidPrice)
        } else {
            Ok(())
        }
    }

    /// An accepted cancellation returns the deposit to the proposer and
    /// marks the proposal cancelled, whatever its tallies.
    pub open spec fn after_cancel(self, caller: Address, id: u64) -> GovernanceState {
        if self.cancel_result(caller, id) is Ok {
            self.set_status(id, ProposalStatus::Cancelled).credit(
                self.proposal(id).proposer,
                self.proposal(id).deposit as int,
            )
        } else {
            self
        }
    }
}

/// Replacing one proposal changes an escrow sum by the difference of the
/// shares.
pub proof fn lemma_escrow_update(
    proposals: Seq<OracleProposal>,
    i: int,
    proposal: OracleProposal,
    burned: bool,
)
    requires
        0 <= i < proposals.len(),
    ensures
        escrow_sum(proposals.update(i, proposal), burned) == escrow_sum(proposals, burned)
            - escrow_share(proposals[i], burned) + escrow_share(proposal, burned),
    decreases proposals.len(),
{
    let updated = proposals.update(i, proposal);
    if i == proposals.len() - 1 {
        assert(updated.drop_last() =~= proposals.drop_last());
    } else {
        assert(updated.drop_last() =~= proposals.drop_last().update(i, proposal));
        lemma_escrow_update(proposals.drop_last(), i, proposal, burned);
    }
}

/// Appending a proposal adds its share to an escrow sum.
pub proof fn lemma_escrow_push(proposals: Seq<OracleProposal>, proposal: OracleProposal, burned: bool)
    ensures
        escrow_sum(proposals.push(proposal), burned) == escrow_sum(proposals, burned)
            + escrow_share(proposal, burned),
{
    assert(proposals.push(proposal).drop_last() =~= proposals);
}

/// No share exceeds its escrow sum, and no escrow sum is negative.
pub proof fn lemma_escrow_bounds(proposals: Seq<OracleProposal>, i: int, burned: bool)
    requires
        proposals_in_order(proposals),
        0 <= i < proposals.len(),
    ensures
        0 <= escrow_share(proposals[i], burned) <= escrow_sum(proposals, burned),
    decreases proposals.len(),
{
    lemma_escrow_non_negative(proposals.drop_last(), burned);
    assert(proposal_in_order(proposals[proposals.len() - 1], proposals.len() - 1));
    assert(proposal_in_order(proposals[i], i));
    if i < proposals.len() - 1 {
        assert(proposals_in_order(proposals.drop_last())) by {
            assert forall|j: int| 0 <= j < proposals.drop_last().len() implies proposal_in_order(
                #[trigger] proposals.drop_last()[j],
                j,
            ) by {
                assert(proposal_in_order(proposals[j], j));
            }
        }
        lemma_escrow_bounds(proposals.drop_last(), i, burned);
    }
}

/// No escrow sum is negative.
pub proof fn lemma_escrow_non_negative(proposals: Seq<OracleProposal>, burned: bool)
    requires
        forall|j: int| 0 <= j < proposals.len() ==> (#[trigger] proposals[j]).deposit >= 0,
    ensures
        0 <= escrow_sum(proposals, burned),
    decreases proposals.len(),
{
    if proposals.len() > 0 {
        assert forall|j: int| 0 <= j < proposals.drop_last().len() implies (
        #[trigger] proposals.drop_last()[j]).deposit >= 0 by {
            assert(proposals[j].deposit >= 0);
        }
        lemma_escrow_non_negative(proposals.drop_last(), burned);
        assert(proposals[proposals.len() - 1].deposit >= 0);
    }
}

/// The escrow sum of the first proposals never exceeds that of all.
pub proof fn lemma_escrow_prefix(proposals: Seq<OracleProposal>, n: int, burned: bool)
    requires
        forall|j: int| 0 <= j < proposals.len() ==> (#[trigger] proposals[j]).deposit >= 0,
        0 <= n <= proposals.len(),
    ensures
        0 <= escrow_sum(proposals.take(n), burned) <= escrow_sum(proposals, burned),
    decreases proposals.len(),
{
    if n == proposals.len() {
        assert(proposals.take(n) =~= proposals);
        lemma_escrow_non_negative(proposals, burned);
    } else {
        assert(proposals.drop_last().take(n) =~= proposals.take(n));
        assert forall|j: int| 0 <= j < proposals.drop_last().len() implies (
        #[trigger] proposals.drop_last()[j]).deposit >= 0 by {
            assert(proposals[j].deposit >= 0);
        }
        lemma_escrow_prefix(proposals.drop_last(), n, burned);
        assert(proposals[proposals.len() - 1].deposit >= 0);
    }
}

/// In a well-formed state no balance exceeds the running total, and a
/// balance together with a locked deposit does not exceed it either.
pub proof fn lemma_balance_bounds(state: GovernanceState, who: Address)
    requires
        state.wf(),
    ensures
        0 <= state.stake_of(who) <= state.total_staked,
        forall|id: u64|
            state.has_proposal(id) && deposit_locked(#[trigger] state.proposal(id).status)
                ==> state.stake_of(who) + state.proposal(id).deposit <= state.total_staked,
{
    lemma_balance_at_most_sum(state.accounts, who);
    assert forall|j: int| 0 <= j < state.proposals.len() implies (
    #[trigger] state.proposals[j]).deposit >= 0 by {
        assert(proposal_in_order(state.proposals[j], j));
    }
    lemma_escrow_non_negative(state.proposals, false);
    lemma_escrow_non_negative(state.proposals, true);
    assert forall|id: u64|
        state.has_proposal(id) && deposit_locked(
            #[trigger] state.proposal(id).status,
        ) implies state.stake_of(who) + state.proposal(id).deposit <= state.total_staked by {
        lemma_escrow_bounds(state.proposals, id - 1, false);
    }
}

/// Changing the status of a proposal keeps proposals in order.
pub proof fn lemma_set_status_in_order(state: GovernanceState, id: u64, status: ProposalStatus)
    requires
        proposals_in_order(state.proposals),
        state.has_proposal(id),
    ensures
        proposals_in_order(state.set_status(id, status).proposals),
{
    let after = state.set_status(id, status).proposals;
    assert forall|j: int| 0 <= j < after.len() implies proposal_in_order(#[trigger] after[j], j) by {
        assert(proposal_in_order(state.proposals[j], j));
    }
}

/// An accepted deposit keeps the state well formed.
pub proof fn lemma_deposit_wf(state: GovernanceState, staker: Address, amount: i128)
    requires
        state.wf(),
    ensures
        state.after_deposit(staker, amount).wf(),
{
    if state.deposit_result(amount) is Ok {
        lemma_balance_bounds(state, staker);
        lemma_with_balance(state.accounts, staker, (state.stake_of(staker) + amount) as i128);
    }
}

/// An accepted withdrawal keeps the state well formed, and the running
/// total goes down by exactly the amount.
pub proof fn lemma_withdraw_wf(state: GovernanceState, staker: Address, amount: i128)
    requires
        state.wf(),
    ensures
        state.after_withdraw(staker, amount).wf(),
        state.withdraw_result(staker, amount) is Ok ==> state.after_withdraw(
            staker,
            amount,
        ).total_staked == state.total_staked - amount,
{
    if state.withdraw_result(staker, amount) is Ok {
        lemma_balance_bounds(state, staker);
        lemma_with_balance(state.accounts, staker, (state.stake_of(staker) - amount) as i128);
    }
}

/// A successful creation keeps the state well formed.
pub proof fn lemma_create_wf(
    state: GovernanceState,
    proposer: Address,
    kind: ProposalType,
    description: String,
    payload: Vec<u8>,
    now: u64,
)
    requires
        state.wf(),
    ensures
        state.after_create(proposer, kind, description, payload, now).wf(),
{
    if state.create_result(proposer, kind, now) is Ok {
        let after = state.after_create(proposer, kind, description, payload, now);
        let added = state.created(proposer, kind, description, payload, now);
        lemma_balance_bounds(state, proposer);
        lemma_with_balance(
            state.accounts,
            proposer,
            (state.stake_of(proposer) - PROPOSAL_DEPOSIT) as i128,
        );
        lemma_escrow_push(state.proposals, added, false);
        lemma_escrow_push(state.proposals, added, true);
        assert forall|j: int| 0 <= j < after.proposals.len() implies proposal_in_order(
            #[trigger] after.proposals[j],
            j,
        ) by {
            if j < state.proposals.len() {
                assert(proposal_in_order(state.proposals[j], j));
            }
        }
    }
}

/// Marking a proposal with a locked deposit as failed keeps the state well
/// formed: the deposit moves from the locked to the burned.
pub proof fn lemma_expire_wf(state: GovernanceState, id: u64)
    requires
        state.wf(),
        state.has_proposal(id),
        deposit_locked(state.proposal(id).status),
    ensures
        state.expire(id).wf(),
        locked_deposits(state.expire(id).proposals) == locked_deposits(state.proposals)
            - state.proposal(id).deposit,
        burned_deposits(state.expire(id).proposals) == burned_deposits(state.proposals)
            + state.proposal(id).deposit,
{
    let failed = with_status(state.proposal(id), ProposalStatus::Failed);
    lemma_escrow_update(state.proposals, id - 1, failed, false);
    lemma_escrow_update(state.proposals, id - 1, failed, true);
    lemma_set_status_in_order(state, id, ProposalStatus::Failed);
}

/// Executing a proposal with a locked deposit keeps the state well formed.
pub proof fn lemma_execute_wf(state: GovernanceState, id: u64)
    requires
        state.wf(),
        state.has_proposal(id),
        deposit_locked(state.proposal(id).status),
    ensures
        state.execute(id).wf(),
{
    let p = state.proposal(id);
    assert(proposal_in_order(state.proposals[id - 1], id - 1));
    lemma_apply_wf(state.config, p.proposal_type, p.execution_payload@);
    match state.config.apply(p.proposal_type, p.execution_payload@) {
        Ok(config) => {
            let applied = GovernanceState { config, ..state };
            let marked = applied.set_status(id, ProposalStatus::Executed);
            let done = with_status(p, ProposalStatus::Executed);
            lemma_escrow_update(state.proposals, id - 1, done, false);
            lemma_escrow_update(state.proposals, id - 1, done, true);
            lemma_set_status_in_order(applied, id, ProposalStatus::Executed);
            lemma_balance_bounds(state, p.proposer);
            lemma_with_balance(
                state.accounts,
                p.proposer,
                (state.stake_of(p.proposer) + p.deposit) as i128,
            );
        },
        Err(_) => {
            let stuck = with_status(p, ProposalStatus::ExecutionFailed);
            lemma_escrow_update(state.proposals, id - 1, stuck, false);
            lemma_escrow_update(state.proposals, id - 1, stuck, true);
            lemma_set_status_in_order(state, id, ProposalStatus::ExecutionFailed);
        },
    }
}

/// Recording an accepted ballot keeps the state well formed and the
/// proposal active.
pub proof fn lemma_record_ballot_wf(
    state: GovernanceState,
    id: u64,
    voter: Address,
    support: bool,
    now: u64,
)
    requires
        state.wf(),
        state.vote_result(id, voter, support, now) is Ok,
    ensures
        state.record_ballot(id, voter, support).wf(),
        state.record_ballot(id, voter, support).has_proposal(id),
        state.record_ballot(id, voter, support).proposal(id).status == ProposalStatus::Active,
{
    let after = state.record_ballot(id, voter, support);
    let p = state.proposal(id);
    let q = with_ballot(p, support, state.stake_of(voter));
    lemma_balance_bounds(state, voter);
    lemma_escrow_update(state.proposals, id - 1, q, false);
    lemma_escrow_update(state.proposals, id - 1, q, true);
    assert forall|j: int| 0 <= j < after.proposals.len() implies proposal_in_order(
        #[trigger] after.proposals[j],
        j,
    ) by {
        assert(proposal_in_order(state.proposals[j], j));
    }
    let ballot = Ballot { proposal_id: id, voter };
    assert forall|i: int, j: int|
        0 <= i < after.ballots.len() && 0 <= j < after.ballots.len() && i
            != j implies after.ballots[i] != after.ballots[j] by {
        if i < state.ballots.len() && j == state.ballots.len() {
            assert(state.ballots[i] == after.ballots[i]);
        }
        if j < state.ballots.len() && i == state.ballots.len() {
            assert(state.ballots[j] == after.ballots[j]);
        }
    }
}

/// A vote, accepted or refused, keeps the state well formed.
pub proof fn lemma_vote_wf(state: GovernanceState, id: u64, voter: Address, support: bool, now: u64)
    requires
        state.wf(),
    ensures
        state.after_vote(id, voter, support, now).wf(),
{
    if state.is_overdue(id, now) {
        lemma_expire_wf(state, id);
    } else if state.vote_result(id, voter, support, now) is Ok {
        lemma_record_ballot_wf(state, id, voter, support, now);
        let recorded = state.record_ballot(id, voter, support);
        if recorded.can_execute(id) {
            lemma_execute_wf(recorded, id);
        }
    }
}

/// Finalising keeps the state well formed.
pub proof fn lemma_finalise_wf(state: GovernanceState, id: u64, now: u64)
    requires
        state.wf(),
    ensures
        state.after_finalise(id, now).wf(),
{
    if state.is_overdue(id, now) {
        if state.can_execute(id) {
            lemma_execute_wf(state, id);
        } else {
            lemma_expire_wf(state, id);
        }
    }
}

/// A retry keeps the state well formed.
pub proof fn lemma_retry_wf(state: GovernanceState, id: u64)
    requires
        state.wf(),
    ensures
        state.after_retry(id).wf(),
{
    if state.retry_result(id) is Ok {
        lemma_execute_wf(state, id);
    }
}

/// A cancellation keeps the state well formed.
pub proof fn lemma_cancel_wf(state: GovernanceState, caller: Address, id: u64)
    requires
        state.wf(),
    ensures
        state.after_cancel(caller, id).wf(),
{
    if state.cancel_result(caller, id) is Ok {
        let p = state.proposal(id);
        assert(proposal_in_order(state.proposals[id - 1], id - 1));
        let done = with_status(p, ProposalStatus::Cancelled);
        lemma_escrow_update(state.proposals, id - 1, done, false);
        lemma_escrow_update(state.proposals, id - 1, done, true);
        lemma_set_status_in_order(state, id, ProposalStatus::Cancelled);
        lemma_balance_bounds(state, p.proposer);
        lemma_with_balance(
            state.accounts,
            p.proposer,
            (state.stake_of(p.proposer) + p.deposit) as i128,
        );
    }
}

} // verus!
