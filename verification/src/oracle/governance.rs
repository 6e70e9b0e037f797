//! The governance engine: staking, proposals, voting, finalisation, retry
//! and cancellation over an explicitly owned state.
//!
//! Token holders stake to obtain voting weight, lock a deposit to propose a
//! change to the oracle configuration, and vote. A proposal that reaches
//! quorum and its approval threshold is executed as part of the vote that
//! got it there. Every operation is one atomic step: it either applies all
//! of its effects or, when it is refused, none. The one exception is a vote
//! on a proposal whose window has closed, which is refused and marks the
//! proposal failed.
//!
//! The engine does not authenticate anyone. Callers pass an address only
//! after the host has established that its owner authorised the call.

use vstd::prelude::*;
use crate::address::Address;
use crate::oracle::errors::OracleError;
use crate::oracle::ledger::{
    checked_sum, ledger_in_order, lemma_sum_non_negative, read_balance, write_balance,
    StakeAccount,
};
use crate::oracle::proposal::{
    deposit_locked, Ballot, OracleProposal, ProposalStatus, ProposalType, PROPOSAL_DEPOSIT,
};
use crate::oracle::registry::OracleConfig;
use crate::oracle::state::{
    escrow_sum, lemma_balance_bounds, lemma_cancel_wf, lemma_create_wf, lemma_deposit_wf,
    lemma_escrow_non_negative, lemma_escrow_prefix, lemma_execute_wf, lemma_expire_wf,
    lemma_record_ballot_wf, lemma_withdraw_wf, proposal_in_order, proposals_in_order,
    GovernanceState,
};
use crate::oracle::tally::{is_approved, is_quorum_reached};

verus! {

/// The governance engine together with everything it owns.
#[derive(Debug)]
pub struct OracleGovernance {
    /// The governance admin, once initialised.
    pub admin: Option<Address>,
    /// One account per address that ever staked.
    pub accounts: Vec<StakeAccount>,
    /// The running total of all stake.
    pub total_staked: i128,
    /// Every proposal ever created, the one with identifier `n` at `n - 1`.
    pub proposals: Vec<OracleProposal>,
    /// Every ballot ever cast.
    pub ballots: Vec<Ballot>,
    /// The oracle configuration that executed proposals change.
    pub config: OracleConfig,
}

impl View for OracleGovernance {
    type V = GovernanceState;

    open spec fn view(&self) -> GovernanceState {
        GovernanceState {
            admin: self.admin,
            accounts: self.accounts@,
            total_staked: self.total_staked,
            proposals: self.proposals@,
            ballots: self.ballots@,
            config: self.config@,
        }
    }
}

impl OracleGovernance {
    /// The engine's invariant; see [`GovernanceState::wf`].
    pub open spec fn wf(&self) -> bool {
        self@.wf()
    }

    /// An engine without admin, stake, proposals, ballots or oracles.
    pub fn new() -> (engine: OracleGovernance)
        ensures
            engine@ == GovernanceState::empty(),
            engine.wf(),
    {
        OracleGovernance {
            admin: None,
            accounts: Vec::new(),
            total_staked: 0,
            proposals: Vec::new(),
            ballots: Vec::new(),
            config: OracleConfig::new(),
        }
    }

    /// Whether the engine's invariant holds. Every operation keeps it, so
    /// this is for state that was put together by other means.
    pub fn is_well_formed(&self) -> (r: bool)
        ensures
            r == self.wf(),
    {
        if !ledger_in_order(&self.accounts) || !self.proposals_in_order() || !self.ballots_distinct()
            || !self.config.is_well_formed() {
            return false;
        }
        proof {
            lemma_sum_non_negative(self.accounts@);
            self.lemma_escrow_signs();
        }
        let balances = match checked_sum(&self.accounts) {
            Some(sum) => sum,
            None => {
                return false;
            },
        };
        let locked = match self.checked_escrow(false) {
            Some(sum) => sum,
            None => {
                return false;
            },
        };
        let burned = match self.checked_escrow(true) {
            Some(sum) => sum,
            None => {
                return false;
            },
        };
        if locked > i128::MAX - balances {
            return false;
        }
        if burned > i128::MAX - balances - locked {
            return false;
        }
        self.total_staked == balances + locked + burned
    }

    /// In an engine with its proposals in order, no escrow sum is negative.
    proof fn lemma_escrow_signs(&self)
        requires
            proposals_in_order(self.proposals@),
        ensures
            escrow_sum(self.proposals@, false) >= 0,
            escrow_sum(self.proposals@, true) >= 0,
    {
        assert forall|j: int| 0 <= j < self.proposals@.len() implies (
        #[trigger] self.proposals@[j]).deposit >= 0 by {
            assert(proposal_in_order(self.proposals@[j], j));
        }
        lemma_escrow_non_negative(self.proposals@, false);
        lemma_escrow_non_negative(self.proposals@, true);
    }

    /// Whether every proposal is in order at its position.
    fn proposals_in_order(&self) -> (r: bool)
        ensures
            r == proposals_in_order(self.proposals@),
    {
        let n = self.proposals.len();
        let mut i: usize = 0;
        while i < n
            invariant
                n == self.proposals@.len(),
                i <= n,
                forall|j: int| 0 <= j < i ==> proposal_in_order(#[trigger] self.proposals@[j], j),
            decreases n - i,
        {
            let p = &self.proposals[i];
            if i as u64 >= u64::MAX || p.id != i as u64 + 1 || p.deposit != PROPOSAL_DEPOSIT
                || p.votes_for < 0 || p.votes_against < 0 {
                assert(!proposal_in_order(self.proposals@[i as int], i as int));
                return false;
            }
            i = i + 1;
        }
        true
    }

    /// Whether no ballot is recorded twice.
    fn ballots_distinct(&self) -> (r: bool)
        ensures
            r == self.ballots@.no_duplicates(),
    {
        let n = self.ballots.len();
        let mut i: usize = 0;
        while i < n
            invariant
                n == self.ballots@.len(),
                i <= n,
                forall|a: int, b: int|
                    0 <= a < i && 0 <= b < a ==> self.ballots@[a] != self.ballots@[b],
            decreases n - i,
        {
            let mut j: usize = 0;
            while j < i
                invariant
                    n == self.ballots@.len(),
                    i < n,
                    j <= i,
                    forall|b: int| 0 <= b < j ==> self.ballots@[i as int] != self.ballots@[b],
                decreases i - j,
            {
                if self.ballots[j].proposal_id == self.ballots[i].proposal_id
                    && self.ballots[j].voter == self.ballots[i].voter {
                    return false;
                }
                j = j + 1;
            }
            i = i + 1;
        }
        assert forall|a: int, b: int|
            0 <= a < self.ballots@.len() && 0 <= b < self.ballots@.len() && a
                != b implies self.ballots@[a] != self.ballots@[b] by {
            if b < a {
            } else {
                assert(self.ballots@[b] != self.ballots@[a]);
            }
        }
        true
    }

    /// The sum of the locked (`burned` false) or burned (`burned` true)
    /// deposits, or `None` where it cannot be represented.
    fn checked_escrow(&self, burned: bool) -> (r: Option<i128>)
        requires
            proposals_in_order(self.proposals@),
        ensures
            r matches Some(sum) ==> sum == escrow_sum(self.proposals@, burned),
            r is None ==> escrow_sum(self.proposals@, burned) > i128::MAX,
    {
        let n = self.proposals.len();
        let mut sum: i128 = 0;
        let mut i: usize = 0;
        proof {
            assert forall|j: int| 0 <= j < self.proposals@.len() implies (
            #[trigger] self.proposals@[j]).deposit >= 0 by {
                assert(proposal_in_order(self.proposals@[j], j));
            }
        }
        while i < n
            invariant
                n == self.proposals@.len(),
                i <= n,
                forall|j: int| 0 <= j < self.proposals@.len() ==> (
                #[trigger] self.proposals@[j]).deposit >= 0,
                sum == escrow_sum(self.proposals@.take(i as int), burned),
                sum >= 0,
            decreases n - i,
        {
            proof {
                assert(self.proposals@.take(i + 1).drop_last() =~= self.proposals@.take(i as int));
                lemma_escrow_prefix(self.proposals@, i + 1, burned);
            }
            let status = self.proposals[i].status;
            let counts = if burned {
                status == ProposalStatus::Failed
            } else {
                status == ProposalStatus::Active || status == ProposalStatus::ExecutionFailed
            };
            if counts {
                if self.proposals[i].deposit > i128::MAX - sum {
                    return None;
                }
                sum = sum + self.proposals[i].deposit;
            }
            i = i + 1;
        }
        assert(self.proposals@.take(n as int) =~= self.proposals@);
        Some(sum)
    }

    /// Whether a governance admin has been installed.
    pub fn is_initialized(&self) -> (r: bool)
        ensures
            r == self@.admin is Some,
    {
        self.admin.is_some()
    }

    /// Installs the governance admin. This can be done once.
    pub fn initialize(&mut self, admin: Address)
        requires
            old(self)@.admin is None,
        ensures
            final(self)@ == old(self)@.initialize(admin),
            old(self).wf() ==> final(self).wf(),
    {
        self.admin = Some(admin);
    }

    /// Succeeds when `caller` is the governance admin and fails with
    /// `Unauthorized` when it is not or when no admin is installed.
    pub fn require_gov_admin(&self, caller: &Address) -> (r: Result<(), OracleError>)
        ensures
            r is Ok <==> self@.admin == Some(*caller),
            r is Err ==> r == Err::<(), OracleError>(OracleError::Unauthorized),
    {
        match self.admin {
            Some(admin) => {
                if admin == *caller {
                    Ok(())
                } else {
                    Err(OracleError::Unauthorized)
                }
            },
            None => Err(OracleError::Unauthorized),
        }
    }

    // ------------------------------------------------------------------
    // Staking
    // ------------------------------------------------------------------

    /// Records a deposit of `amount` by `staker`, which raises the staker's
    /// balance and the running total by `amount`.
    ///
    /// Fails with `InvalidPrice`, changing nothing, when `amount` is not
    /// positive or the running total cannot hold it.
    pub fn deposit_stake(&mut self, staker: Address, amount: i128) -> (r: Result<(), OracleError>)
        requires
            old(self).wf(),
        ensures
            r == old(self)@.deposit_result(amount),
            final(self)@ == old(self)@.after_deposit(staker, amount),
            final(self).wf(),
    {
        proof {
            lemma_balance_bounds(self@, staker);
            lemma_deposit_wf(self@, staker, amount);
        }
        if amount <= 0 || amount > i128::MAX - self.total_staked {
            return Err(OracleError::InvalidPrice);
        }
        let current = read_balance(&self.accounts, &staker);
        write_balance(&mut self.accounts, &staker, current + amount);
        self.total_staked = self.total_staked + amount;
        Ok(())
    }

    /// Records a withdrawal of `amount` by `staker`, which lowers the
    /// staker's balance and the running total by `amount`.
    ///
    /// Fails with `InvalidPrice`, changing nothing, when `amount` is not
    /// positive or exceeds the staker's balance.
    pub fn withdraw_stake(&mut self, staker: Address, amount: i128) -> (r: Result<(), OracleError>)
        requires
            old(self).wf(),
        ensures
            r == old(self)@.withdraw_result(staker, amount),
            final(self)@ == old(self)@.after_withdraw(staker, amount),
            r is Ok ==> final(self)@.total_staked == old(self)@.total_staked - amount,
            final(self).wf(),
    {
        proof {
            lemma_balance_bounds(self@, staker);
            lemma_withdraw_wf(self@, staker, amount);
        }
        let current = read_balance(&self.accounts, &staker);
        if amount <= 0 || amount > current {
            return Err(OracleError::InvalidPrice);
        }
        write_balance(&mut self.accounts, &staker, current - amount);
        let rest = self.total_staked - amount;
        self.total_staked = if rest < 0 {
            0
        } else {
            rest
        };
        Ok(())
    }

    /// The staked balance of `staker`; zero for an address that never staked.
    pub fn get_stake(&self, staker: &Address) -> (amount: i128)
        requires
            self.wf(),
        ensures
            amount == self@.stake_of(*staker),
    {
        read_balance(&self.accounts, staker)
    }

    /// The running total of all stake.
    pub fn get_total_staked(&self) -> (total: i128)
        ensures
            total == self@.total_staked,
    {
        self.total_staked
    }

    // ------------------------------------------------------------------
    // Proposal store
    // ------------------------------------------------------------------

    /// The proposal with identifier `proposal_id`, or `OracleNotFound`.
    pub fn get_proposal(&self, proposal_id: u64) -> (r: Result<&OracleProposal, OracleError>)
        ensures
            r is Ok <==> self@.has_proposal(proposal_id),
            r matches Ok(p) ==> *p == self@.proposal(proposal_id),
            r matches Err(e) ==> e == OracleError::OracleNotFound,
    {
        match self.proposal_slot(proposal_id) {
            Some(slot) => Ok(&self.proposals[slot]),
            None => Err(OracleError::OracleNotFound),
        }
    }

    /// Number of proposals created so far, which is also the identifier of
    /// the latest one.
    pub fn proposal_count(&self) -> (count: u64)
        requires
            self.wf(),
        ensures
            count == self@.proposals.len(),
    {
        let len = self.proposals.len();
        proof {
            if len > 0 {
                assert(proposal_in_order(self@.proposals[len - 1], len - 1));
            }
        }
        len as u64
    }

    /// Whether `voter` has cast a ballot on proposal `proposal_id`.
    pub fn has_voted(&self, proposal_id: u64, voter: &Address) -> (r: bool)
        ensures
            r == self@.has_voted(proposal_id, *voter),
    {
        let mut i: usize = 0;
        while i < self.ballots.len()
            invariant
                i <= self.ballots@.len(),
                forall|j: int|
                    0 <= j < i ==> self.ballots@[j] != (Ballot {
                        proposal_id,
                        voter: *voter,
                    }),
            decreases self.ballots@.len() - i,
        {
            if self.ballots[i].proposal_id == proposal_id && self.ballots[i].voter == *voter {
                return true;
            }
            i = i + 1;
        }
        false
    }

    /// Position at which proposal `proposal_id` is stored, if it exists.
    fn proposal_slot(&self, proposal_id: u64) -> (r: Option<usize>)
        ensures
            r is Some <==> self@.has_proposal(proposal_id),
            r matches Some(slot) ==> slot == proposal_id - 1,
    {
        if proposal_id == 0 {
            return None;
        }
        let len = self.proposals.len();
        if proposal_id - 1 >= len as u64 {
            return None;
        }
        Some((proposal_id - 1) as usize)
    }

    // ------------------------------------------------------------------
    // Proposal lifecycle
    // ------------------------------------------------------------------

    /// Creates a proposal on behalf of `proposer` at time `now`.
    ///
    /// The deposit is taken out of the proposer's balance but stays in the
    /// running total. The new proposal is active, has empty tallies and a
    /// voting window that ends one day after `now` for an emergency pause
    /// and seven days after `now` otherwise. Its identifier is returned.
    ///
    /// Fails with `InsufficientOracles` when the proposer's balance is below
    /// the deposit, and with `InvalidPrice` when the identifier or the end
    /// of the window cannot be represented. A failure changes nothing.
    pub fn create_proposal(
        &mut self,
        proposer: Address,
        proposal_type: ProposalType,
        description: String,
        execution_payload: Vec<u8>,
        now: u64,
    ) -> (r: Result<u64, OracleError>)
        requires
            old(self).wf(),
        ensures
            r == old(self)@.create_result(proposer, proposal_type, now),
            final(self)@ == old(self)@.after_create(
                proposer,
                proposal_type,
                description,
                execution_payload,
                now,
            ),
            final(self).wf(),
    {
        proof {
            lemma_balance_bounds(self@, proposer);
            lemma_create_wf(self@, proposer, proposal_type, description, execution_payload, now);
        }
        let stake = read_balance(&self.accounts, &proposer);
        if stake < PROPOSAL_DEPOSIT {
            return Err(OracleError::InsufficientOracles);
        }
        let count = self.proposals.len();
        let window = proposal_type.voting_period();
        if count as u64 >= u64::MAX || now > u64::MAX - window {
            return Err(OracleError::InvalidPrice);
        }
        let id: u64 = count as u64 + 1;
        write_balance(&mut self.accounts, &proposer, stake - PROPOSAL_DEPOSIT);
        self.proposals.push(
            OracleProposal {
                id,
                proposer,
                proposal_type,
                description,
                votes_for: 0,
                votes_against: 0,
                voting_ends: now + window,
                status: ProposalStatus::Active,
                execution_payload,
                deposit: PROPOSAL_DEPOSIT,
            },
        );
        Ok(id)
    }

    /// Casts the ballot of `voter` on proposal `proposal_id` at time `now`,
    /// in favour if `vote` is true and against otherwise.
    ///
    /// The ballot weighs as much as the voter's balance at this moment. If
    /// the proposal has quorum and approval once the ballot is counted, it
    /// is executed before this call returns.
    ///
    /// Fails, in this order: with `OracleNotFound` when the proposal does
    /// not exist; with `InvalidPrice` when it is not active; with
    /// `InvalidPrice` when its window has closed, in which case the proposal
    /// is marked failed; with `OracleAlreadyExists` when the voter has voted
    /// on it before; with `LowReputation` when the voter holds no stake;
    /// with `InvalidPrice` when the tally cannot hold the weight. Apart from
    /// the closed window, a failure changes nothing.
    pub fn vote_on_proposal(&mut self, proposal_id: u64, voter: Address, vote: bool, now: u64) -> (r:
        Result<(), OracleError>)
        requires
            old(self).wf(),
        ensures
            r == old(self)@.vote_result(proposal_id, voter, vote, now),
            final(self)@ == old(self)@.after_vote(proposal_id, voter, vote, now),
            final(self).wf(),
    {
        let slot = match self.proposal_slot(proposal_id) {
            Some(slot) => slot,
            None => {
                return Err(OracleError::OracleNotFound);
            },
        };
        if self.proposals[slot].status != ProposalStatus::Active {
            return Err(OracleError::InvalidPrice);
        }
        if now >= self.proposals[slot].voting_ends {
            self.finalise_expired_proposal(proposal_id);
            return Err(OracleError::InvalidPrice);
        }
        if self.has_voted(proposal_id, &voter) {
            return Err(OracleError::OracleAlreadyExists);
        }
        let weight = read_balance(&self.accounts, &voter);
        proof {
            lemma_balance_bounds(self@, voter);
            assert(proposal_in_order(self@.proposals[slot as int], slot as int));
        }
        if weight == 0 {
            return Err(OracleError::LowReputation);
        }
        let tally = if vote {
            self.proposals[slot].votes_for
        } else {
            self.proposals[slot].votes_against
        };
        if weight > i128::MAX - tally {
            return Err(OracleError::InvalidPrice);
        }
        proof {
            lemma_record_ballot_wf(self@, proposal_id, voter, vote, now);
        }
        let proposal = &mut self.proposals[slot];
        if vote {
            proposal.votes_for = tally + weight;
        } else {
            proposal.votes_against = tally + weight;
        }
        self.ballots.push(Ballot { proposal_id, voter });
        assert(self@ == old(self)@.record_ballot(proposal_id, voter, vote));
        if is_quorum_reached(&self.proposals[slot], self.total_staked) && is_approved(
            &self.proposals[slot],
        ) {
            self.execute_proposal(proposal_id);
        }
        Ok(())
    }

    /// Settles proposal `proposal_id` at time `now` if its window has closed
    /// while it was still active: it is executed if it has quorum and
    /// approval and marked failed, its deposit burned, if not. In every
    /// other case nothing changes. Returns the status the proposal has
    /// afterwards, or `OracleNotFound` when it does not exist.
    pub fn finalise_proposal(&mut self, proposal_id: u64, now: u64) -> (r: Result<
        ProposalStatus,
        OracleError,
    >)
        requires
            old(self).wf(),
        ensures
            r == old(self)@.finalise_result(proposal_id, now),
            final(self)@ == old(self)@.after_finalise(proposal_id, now),
            final(self).wf(),
    {
        let slot = match self.proposal_slot(proposal_id) {
            Some(slot) => slot,
            None => {
                return Err(OracleError::OracleNotFound);
            },
        };
        if self.proposals[slot].status != ProposalStatus::Active {
            return Ok(self.proposals[slot].status);
        }
        if now < self.proposals[slot].voting_ends {
            return Ok(self.proposals[slot].status);
        }
        if is_quorum_reached(&self.proposals[slot], self.total_staked) && is_approved(
            &self.proposals[slot],
        ) {
            self.execute_proposal(proposal_id);
        } else {
            self.finalise_expired_proposal(proposal_id);
        }
        Ok(self.proposals[slot].status)
    }

    /// Executes proposal `proposal_id` again after an earlier execution
    /// failed. Anyone may ask for this.
    ///
    /// Fails with `OracleNotFound` when the proposal does not exist and with
    /// `InvalidPrice` when it does not await a retry; a failure changes
    /// nothing. A retry whose execution fails again succeeds and leaves the
    /// proposal waiting.
    pub fn retry_execution(&mut self, proposal_id: u64) -> (r: Result<(), OracleError>)
        requires
            old(self).wf(),
        ensures
            r == old(self)@.retry_result(proposal_id),
            final(self)@ == old(self)@.after_retry(proposal_id),
            final(self).wf(),
    {
        let slot = match self.proposal_slot(proposal_id) {
            Some(slot) => slot,
            None => {
                return Err(OracleError::OracleNotFound);
            },
        };
        if self.proposals[slot].status != ProposalStatus::ExecutionFailed {
            return Err(OracleError::InvalidPrice);
        }
        self.execute_proposal(proposal_id);
        Ok(())
    }

    /// Cancels active proposal `proposal_id` on behalf of `admin` and
    /// returns its deposit to the proposer, whatever the tallies are.
    ///
    /// Fails, in this order: with `Unauthorized` when `admin` is not the
    /// governance admin; with `OracleNotFound` when the proposal does not
    /// exist; with `InvalidPrice` when it is not active. A failure changes
    /// nothing.
    pub fn cancel_proposal(&mut self, admin: Address, proposal_id: u64) -> (r: Result<
        (),
        OracleError,
    >)
        requires
            old(self).wf(),
        ensures
            r == old(self)@.cancel_result(admin, proposal_id),
            final(self)@ == old(self)@.after_cancel(admin, proposal_id),
            final(self).wf(),
    {
        self.require_gov_admin(&admin)?;
        let slot = match self.proposal_slot(proposal_id) {
            Some(slot) => slot,
            None => {
                return Err(OracleError::OracleNotFound);
            },
        };
        if self.proposals[slot].status != ProposalStatus::Active {
            return Err(OracleError::InvalidPrice);
        }
        let proposer = self.proposals[slot].proposer;
        let deposit = self.proposals[slot].deposit;
        let balance = read_balance(&self.accounts, &proposer);
        proof {
            lemma_balance_bounds(self@, proposer);
            lemma_cancel_wf(self@, admin, proposal_id);
            assert(deposit_locked(self@.proposal(proposal_id).status));
        }
        write_balance(&mut self.accounts, &proposer, balance + deposit);
        let proposal = &mut self.proposals[slot];
        proposal.status = ProposalStatus::Cancelled;
        Ok(())
    }

    // ------------------------------------------------------------------
    // Execution and expiry
    // ------------------------------------------------------------------

    /// Applies the change that proposal `proposal_id` asks for. If that
    /// succeeds the proposal is executed and its deposit returned to the
    /// proposer; if it fails the proposal awaits a retry and the deposit
    /// stays locked.
    fn execute_proposal(&mut self, proposal_id: u64)
        requires
            old(self).wf(),
            old(self)@.has_proposal(proposal_id),
            deposit_locked(old(self)@.proposal(proposal_id).status),
        ensures
            final(self)@ == old(self)@.execute(proposal_id),
            final(self).wf(),
    {
        let count = self.proposals.len();
        assert(proposal_id <= count);
        let slot = (proposal_id - 1) as usize;
        let kind = self.proposals[slot].proposal_type;
        let proposer = self.proposals[slot].proposer;
        let deposit = self.proposals[slot].deposit;
        proof {
            lemma_balance_bounds(self@, proposer);
            lemma_execute_wf(self@, proposal_id);
        }
        let applied = self.config.apply(kind, &self.proposals[slot].execution_payload);
        match applied {
            Ok(()) => {
                let proposal = &mut self.proposals[slot];
                proposal.status = ProposalStatus::Executed;
                let balance = read_balance(&self.accounts, &proposer);
                write_balance(&mut self.accounts, &proposer, balance + deposit);
            },
            Err(_) => {
                let proposal = &mut self.proposals[slot];
                proposal.status = ProposalStatus::ExecutionFailed;
            },
        }
    }

    /// Marks proposal `proposal_id` as failed. Its deposit is burned: it is
    /// credited to nobody and stays in the running total.
    fn finalise_expired_proposal(&mut self, proposal_id: u64)
        requires
            old(self).wf(),
            old(self)@.has_proposal(proposal_id),
            deposit_locked(old(self)@.proposal(proposal_id).status),
        ensures
            final(self)@ == old(self)@.expire(proposal_id),
            final(self).wf(),
    {
        proof {
            lemma_expire_wf(self@, proposal_id);
        }
        let count = self.proposals.len();
        assert(proposal_id <= count);
        let slot = (proposal_id - 1) as usize;
        let proposal = &mut self.proposals[slot];
        proposal.status = ProposalStatus::Failed;
    }
}

} // verus!
