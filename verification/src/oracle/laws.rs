//! What holds of the governance engine in every state it can reach.
//!
//! The laws are stated over [`GovernanceState`], the mathematical state that
//! every executable operation of the engine is proved to follow.

use vstd::prelude::*;
use crate::address::Address;
use crate::oracle::errors::OracleError;
use crate::oracle::ledger::{lemma_with_balance, sum_amounts};
use crate::oracle::proposal::{
    deposit_burned, deposit_locked, deposit_returned, is_terminal, Ballot, ProposalStatus,
    ProposalType, EMERGENCY_VOTING_PERIOD_SECONDS, MIN_ORACLES, PROPOSAL_DEPOSIT,
    VOTING_PERIOD_SECONDS,
};
use crate::oracle::registry::lemma_without_member;
use crate::oracle::state::{
    burned_deposits, lemma_balance_bounds, lemma_cancel_wf, lemma_create_wf, lemma_deposit_wf,
    lemma_escrow_push, lemma_escrow_update, lemma_finalise_wf, lemma_record_ballot_wf, lemma_retry_wf, lemma_vote_wf,
    lemma_withdraw_wf, locked_deposits, proposal_in_order, with_status, GovernanceState,
};

verus! {

/// One call into the engine, with its arguments.
pub enum Operation {
    Initialize { admin: Address },
    Deposit { staker: Address, amount: i128 },
    Withdraw { staker: Address, amount: i128 },
    Create {
        proposer: Address,
        kind: ProposalType,
        description: String,
        payload: Vec<u8>,
        now: u64,
    },
    Vote { id: u64, voter: Address, support: bool, now: u64 },
    Finalise { id: u64, now: u64 },
    Retry { id: u64 },
    Cancel { caller: Address, id: u64 },
}

/// Whether the operation only moves stake in or out.
pub open spec fn is_stake_operation(op: Operation) -> bool {
    op is Deposit || op is Withdraw
}

/// The state that one operation leaves behind. Initialising an engine that
/// already has an admin is not allowed and stands for no change here.
pub open spec fn step(state: GovernanceState, op: Operation) -> GovernanceState {
    match op {
        Operation::Initialize { admin } => if state.admin is None {
            state.initialize(admin)
        } else {
            state
        },
        Operation::Deposit { staker, amount } => state.after_deposit(staker, amount),
        Operation::Withdraw { staker, amount } => state.after_withdraw(staker, amount),
        Operation::Create { proposer, kind, description, payload, now } => state.after_create(
            proposer,
            kind,
            description,
            payload,
            now,
        ),
        Operation::Vote { id, voter, support, now } => state.after_vote(id, voter, support, now),
        Operation::Finalise { id, now } => state.after_finalise(id, now),
        Operation::Retry { id } => state.after_retry(id),
        Operation::Cancel { caller, id } => state.after_cancel(caller, id),
    }
}

/// The state that a sequence of operations leaves behind, the first
/// operation applied first.
pub open spec fn run(state: GovernanceState, ops: Seq<Operation>) -> GovernanceState
    decreases ops.len(),
{
    if ops.len() == 0 {
        state
    } else {
        step(run(state, ops.drop_last()), ops.last())
    }
}

/// Every operation keeps the engine's invariant.
pub proof fn law_step_keeps_invariant(state: GovernanceState, op: Operation)
    requires
        state.wf(),
    ensures
        step(state, op).wf(),
{
    match op {
        Operation::Initialize { admin } => {},
        Operation::Deposit { staker, amount } => lemma_deposit_wf(state, staker, amount),
        Operation::Withdraw { staker, amount } => lemma_withdraw_wf(state, staker, amount),
        Operation::Create { proposer, kind, description, payload, now } => lemma_create_wf(
            state,
            proposer,
            kind,
            description,
            payload,
            now,
        ),
        Operation::Vote { id, voter, support, now } => lemma_vote_wf(
            state,
            id,
            voter,
            support,
            now,
        ),
        Operation::Finalise { id, now } => lemma_finalise_wf(state, id, now),
        Operation::Retry { id } => lemma_retry_wf(state, id),
        Operation::Cancel { caller, id } => lemma_cancel_wf(state, caller, id),
    }
}

/// The invariant holds after any sequence of operations. In particular the
/// running total always equals the balances plus the locked deposits plus
/// the burned deposits, and it never goes below zero.
pub proof fn law_invariant_always_holds(state: GovernanceState, ops: Seq<Operation>)
    requires
        state.wf(),
    ensures
        run(state, ops).wf(),
        run(state, ops).total_staked == sum_amounts(run(state, ops).accounts) + locked_deposits(
            run(state, ops).proposals,
        ) + burned_deposits(run(state, ops).proposals),
        run(state, ops).total_staked >= 0,
    decreases ops.len(),
{
    if ops.len() > 0 {
        law_invariant_always_holds(state, ops.drop_last());
        law_step_keeps_invariant(run(state, ops.drop_last()), ops.last());
    }
    lemma_balance_bounds(run(state, ops), arbitrary());
}

/// After any sequence of deposits and withdrawals on a new engine, the
/// running total equals the sum of all account balances.
pub proof fn law_total_is_sum_of_balances(ops: Seq<Operation>)
    requires
        forall|i: int| 0 <= i < ops.len() ==> is_stake_operation(#[trigger] ops[i]),
    ensures
        run(GovernanceState::empty(), ops).total_staked == sum_amounts(
            run(GovernanceState::empty(), ops).accounts,
        ),
        run(GovernanceState::empty(), ops).proposals.len() == 0,
    decreases ops.len(),
{
    let start = GovernanceState::empty();
    law_invariant_always_holds(start, ops);
    if ops.len() > 0 {
        assert forall|i: int| 0 <= i < ops.drop_last().len() implies is_stake_operation(
            #[trigger] ops.drop_last()[i],
        ) by {
            assert(is_stake_operation(ops[i]));
        }
        law_total_is_sum_of_balances(ops.drop_last());
        assert(is_stake_operation(ops[ops.len() - 1]));
    }
}

/// Deposits and withdrawals move the running total and the sum of all
/// balances by the same amount, from any state of the engine.
pub proof fn law_stake_moves_total_with_balances(state: GovernanceState, op: Operation)
    requires
        state.wf(),
        is_stake_operation(op),
    ensures
        step(state, op).total_staked - sum_amounts(step(state, op).accounts) == state.total_staked
            - sum_amounts(state.accounts),
        step(state, op).proposals == state.proposals,
{
    law_step_keeps_invariant(state, op);
}

/// What an accepted deposit or withdrawal does: the staker's balance and
/// the running total move by exactly the amount, and no other balance
/// moves. A refused one changes nothing.
pub proof fn law_stake_movements(state: GovernanceState, staker: Address, amount: i128)
    requires
        state.wf(),
    ensures
        state.deposit_result(amount) is Ok ==> {
            let next = state.after_deposit(staker, amount);
            &&& next.stake_of(staker) == state.stake_of(staker) + amount
            &&& next.total_staked == state.total_staked + amount
            &&& forall|other: Address|
                other != staker ==> #[trigger] next.stake_of(other) == state.stake_of(other)
        },
        state.deposit_result(amount) is Err ==> state.after_deposit(staker, amount) == state,
        state.withdraw_result(staker, amount) is Ok ==> {
            let next = state.after_withdraw(staker, amount);
            &&& next.stake_of(staker) == state.stake_of(staker) - amount
            &&& next.stake_of(staker) >= 0
            &&& next.total_staked == state.total_staked - amount
            &&& forall|other: Address|
                other != staker ==> #[trigger] next.stake_of(other) == state.stake_of(other)
        },
        state.withdraw_result(staker, amount) is Err ==> state.after_withdraw(staker, amount)
            == state,
{
    lemma_balance_bounds(state, staker);
    if state.deposit_result(amount) is Ok {
        lemma_with_balance(state.accounts, staker, (state.stake_of(staker) + amount) as i128);
    }
    if state.withdraw_result(staker, amount) is Ok {
        lemma_with_balance(state.accounts, staker, (state.stake_of(staker) - amount) as i128);
    }
}

/// Whether the engine refuses the operation in this state.
pub open spec fn refused(state: GovernanceState, op: Operation) -> bool {
    match op {
        Operation::Initialize { admin } => state.admin is Some,
        Operation::Deposit { staker, amount } => state.deposit_result(amount) is Err,
        Operation::Withdraw { staker, amount } => state.withdraw_result(staker, amount) is Err,
        Operation::Create { proposer, kind, description, payload, now } => state.create_result(
            proposer,
            kind,
            now,
        ) is Err,
        Operation::Vote { id, voter, support, now } => state.vote_result(id, voter, support, now)
            is Err,
        Operation::Finalise { id, now } => state.finalise_result(id, now) is Err,
        Operation::Retry { id } => state.retry_result(id) is Err,
        Operation::Cancel { caller, id } => state.cancel_result(caller, id) is Err,
    }
}

/// A refused operation changes nothing. The one exception is a vote on an
/// active proposal whose window has closed, which marks the proposal failed.
pub proof fn law_refusals_change_nothing(state: GovernanceState, op: Operation)
    requires
        refused(state, op),
    ensures
        match op {
            Operation::Vote { id, voter, support, now } => if state.is_overdue(id, now) {
                step(state, op) == state.expire(id)
            } else {
                step(state, op) == state
            },
            _ => step(state, op) == state,
        },
{
}

/// Proposals are never deleted or renumbered. Whatever the operation, every
/// proposal keeps its identifier, proposer, kind, description, payload,
/// window and deposit; its tallies never go down; and identifiers are
/// handed out in order, so that the number of proposals never goes down.
pub proof fn law_proposals_are_kept(state: GovernanceState, op: Operation, id: u64)
    requires
        state.wf(),
        state.has_proposal(id),
    ensures
        ({
            let next = step(state, op);
            let before = state.proposal(id);
            let after = next.proposal(id);
            &&& next.has_proposal(id)
            &&& next.proposals.len() >= state.proposals.len()
            &&& before.id == id
            &&& after.id == id
            &&& after.proposer == before.proposer
            &&& after.proposal_type == before.proposal_type
            &&& after.description == before.description
            &&& after.execution_payload == before.execution_payload
            &&& after.voting_ends == before.voting_ends
            &&& after.deposit == before.deposit
            &&& after.votes_for >= before.votes_for
            &&& after.votes_against >= before.votes_against
            &&& op is Create && !refused(state, op) ==> next.proposals.len()
                == state.proposals.len() + 1
            &&& !(op is Create) ==> next.proposals.len() == state.proposals.len()
        }),
{
    assert(proposal_in_order(state.proposals[id - 1], id - 1));
    match op {
        Operation::Vote { id: target, voter, support, now } => {
            if !state.is_overdue(target, now) && state.vote_result(target, voter, support, now)
                is Ok {
                lemma_balance_bounds(state, voter);
                lemma_record_ballot_wf(state, target, voter, support, now);
            }
        },
        _ => {},
    }
}

/// A ballot, once cast, stays on record whatever happens next.
pub proof fn law_ballots_are_kept(state: GovernanceState, ops: Seq<Operation>, id: u64, voter: Address)
    requires
        state.has_voted(id, voter),
    ensures
        run(state, ops).has_voted(id, voter),
    decreases ops.len(),
{
    if ops.len() > 0 {
        law_ballots_are_kept(state, ops.drop_last(), id, voter);
        let before = run(state, ops.drop_last());
        let after = step(before, ops.last());
        let ballot = Ballot { proposal_id: id, voter };
        let k = choose|k: int| 0 <= k < before.ballots.len() && before.ballots[k] == ballot;
        assert(k < after.ballots.len() && after.ballots[k] == ballot);
    }
}

/// Nobody votes twice on one proposal. Once a vote of `voter` on `id` has
/// been accepted, every later vote of `voter` on `id` is refused, whatever
/// happened in between; and while the proposal is still active and its
/// window open, the refusal is `OracleAlreadyExists`.
pub proof fn law_no_second_ballot(
    state: GovernanceState,
    id: u64,
    voter: Address,
    support: bool,
    now: u64,
    between: Seq<Operation>,
    again: bool,
    later: u64,
)
    requires
        state.wf(),
        state.vote_result(id, voter, support, now) is Ok,
    ensures
        ({
            let second = run(state.after_vote(id, voter, support, now), between);
            &&& second.has_voted(id, voter)
            &&& second.vote_result(id, voter, again, later) is Err
            &&& second.has_proposal(id) && second.proposal(id).status == ProposalStatus::Active
                && later < second.proposal(id).voting_ends ==> second.vote_result(
                id,
                voter,
                again,
                later,
            ) == Err::<(), OracleError>(OracleError::OracleAlreadyExists)
            &&& second.ballots.no_duplicates()
        }),
{
    let first = state.after_vote(id, voter, support, now);
    let recorded = state.record_ballot(id, voter, support);
    let ballot = Ballot { proposal_id: id, voter };
    assert(recorded.ballots[state.ballots.len() as int] == ballot);
    assert(recorded.has_voted(id, voter));
    assert(first.ballots == recorded.ballots);
    assert(first.has_voted(id, voter));
    lemma_vote_wf(state, id, voter, support, now);
    law_ballots_are_kept(first, between, id, voter);
    law_invariant_always_holds(first, between);
}

/// A proposal's status puts its deposit in exactly one place: locked,
/// returned or burned. In a terminal state it is returned or burned, never
/// both and never neither.
pub proof fn law_deposit_is_in_one_place(status: ProposalStatus)
    ensures
        deposit_locked(status) || deposit_returned(status) || deposit_burned(status),
        !(deposit_locked(status) && deposit_returned(status)),
        !(deposit_locked(status) && deposit_burned(status)),
        !(deposit_returned(status) && deposit_burned(status)),
        is_terminal(status) <==> !deposit_locked(status),
        is_terminal(status) ==> (deposit_returned(status) != deposit_burned(status)),
{
}

/// Every operation treats the deposit of every proposal as its status says.
///
/// A proposal in a terminal state never changes again, so its deposit is
/// settled once. When an operation moves a proposal to `Executed` or
/// `Cancelled`, the proposer's balance and the sum of all balances go up by
/// exactly the deposit and nothing is burned. When it moves a proposal to
/// `Failed`, no balance changes and the burned deposits go up by exactly the
/// deposit.
pub proof fn law_deposit_settled_once(state: GovernanceState, op: Operation, id: u64)
    requires
        state.wf(),
        state.has_proposal(id),
    ensures
        ({
            let next = step(state, op);
            let before = state.proposal(id);
            let after = next.proposal(id);
            &&& next.has_proposal(id)
            &&& after.deposit == before.deposit
            &&& after.proposer == before.proposer
            &&& is_terminal(before.status) ==> after == before
            &&& deposit_locked(before.status) && deposit_returned(after.status) ==> {
                &&& next.stake_of(before.proposer) == state.stake_of(before.proposer)
                    + before.deposit
                &&& sum_amounts(next.accounts) == sum_amounts(state.accounts) + before.deposit
                &&& burned_deposits(next.proposals) == burned_deposits(state.proposals)
                &&& locked_deposits(next.proposals) == locked_deposits(state.proposals)
                    - before.deposit
            }
            &&& deposit_locked(before.status) && deposit_burned(after.status) ==> {
                &&& next.accounts == state.accounts
                &&& burned_deposits(next.proposals) == burned_deposits(state.proposals)
                    + before.deposit
                &&& locked_deposits(next.proposals) == locked_deposits(state.proposals)
                    - before.deposit
            }
        }),
{
    let next = step(state, op);
    law_step_keeps_invariant(state, op);
    assert(proposal_in_order(state.proposals[id - 1], id - 1));
    match op {
        Operation::Initialize { admin } => {},
        Operation::Deposit { staker, amount } => {},
        Operation::Withdraw { staker, amount } => {},
        Operation::Create { proposer, kind, description, payload, now } => {},
        Operation::Vote { id: target, voter, support, now } => {
            if state.is_overdue(target, now) {
                lemma_settle(state, target, ProposalStatus::Failed);
            } else if state.vote_result(target, voter, support, now) is Ok {
                lemma_record_ballot_wf(state, target, voter, support, now);
                let recorded = state.record_ballot(target, voter, support);
                lemma_escrow_update(state.proposals, target - 1, recorded.proposal(target), false);
                lemma_escrow_update(state.proposals, target - 1, recorded.proposal(target), true);
                if recorded.can_execute(target) {
                    lemma_executed(recorded, target);
                }
            }
        },
        Operation::Finalise { id: target, now } => {
            if state.is_overdue(target, now) {
                if state.can_execute(target) {
                    lemma_executed(state, target);
                } else {
                    lemma_settle(state, target, ProposalStatus::Failed);
                }
            }
        },
        Operation::Retry { id: target } => {
            if state.retry_result(target) is Ok {
                lemma_executed(state, target);
            }
        },
        Operation::Cancel { caller, id: target } => {
            if state.cancel_result(caller, target) is Ok {
                lemma_settle(state, target, ProposalStatus::Cancelled);
                let p = state.proposal(target);
                assert(proposal_in_order(state.proposals[target - 1], target - 1));
                lemma_balance_bounds(state, p.proposer);
                lemma_with_balance(
                    state.accounts,
                    p.proposer,
                    (state.stake_of(p.proposer) + p.deposit) as i128,
                );
            }
        },
    }
}

/// Stake is conserved. The running total moves only when stake is deposited
/// or withdrawn; what is burned is never given back; and so the stake in
/// circulation, which is the balances plus the locked deposits, goes down
/// by exactly what is burned and otherwise moves only with the running
/// total.
pub proof fn law_stake_is_conserved(state: GovernanceState, op: Operation)
    requires
        state.wf(),
    ensures
        ({
            let next = step(state, op);
            let circulating = sum_amounts(state.accounts) + locked_deposits(state.proposals);
            let circulating_next = sum_amounts(next.accounts) + locked_deposits(next.proposals);
            &&& !is_stake_operation(op) ==> next.total_staked == state.total_staked
            &&& burned_deposits(next.proposals) >= burned_deposits(state.proposals)
            &&& circulating_next - circulating == (next.total_staked - state.total_staked) - (
            burned_deposits(next.proposals) - burned_deposits(state.proposals))
        }),
{
    law_step_keeps_invariant(state, op);
    match op {
        Operation::Create { proposer, kind, description, payload, now } => {
            if state.create_result(proposer, kind, now) is Ok {
                lemma_escrow_push(
                    state.proposals,
                    state.created(proposer, kind, description, payload, now),
                    true,
                );
            }
        },
        Operation::Vote { id, voter, support, now } => {
            if state.is_overdue(id, now) {
                lemma_settle(state, id, ProposalStatus::Failed);
                assert(proposal_in_order(state.proposals[id - 1], id - 1));
            } else if state.vote_result(id, voter, support, now) is Ok {
                lemma_record_ballot_wf(state, id, voter, support, now);
                let recorded = state.record_ballot(id, voter, support);
                lemma_escrow_update(state.proposals, id - 1, recorded.proposal(id), true);
                if recorded.can_execute(id) {
                    lemma_executed(recorded, id);
                }
            }
        },
        Operation::Finalise { id, now } => {
            if state.is_overdue(id, now) {
                if state.can_execute(id) {
                    lemma_executed(state, id);
                } else {
                    lemma_settle(state, id, ProposalStatus::Failed);
                    assert(proposal_in_order(state.proposals[id - 1], id - 1));
                }
            }
        },
        Operation::Retry { id } => {
            if state.retry_result(id) is Ok {
                lemma_executed(state, id);
            }
        },
        Operation::Cancel { caller, id } => {
            if state.cancel_result(caller, id) is Ok {
                lemma_settle(state, id, ProposalStatus::Cancelled);
            }
        },
        _ => {},
    }
}

/// What changing the status of one proposal with a locked deposit does to
/// the locked and the burned deposits.
proof fn lemma_settle(state: GovernanceState, id: u64, status: ProposalStatus)
    requires
        state.wf(),
        state.has_proposal(id),
        deposit_locked(state.proposal(id).status),
    ensures
        locked_deposits(state.set_status(id, status).proposals) == locked_deposits(state.proposals)
            - if deposit_locked(status) {
            0
        } else {
            state.proposal(id).deposit as int
        },
        burned_deposits(state.set_status(id, status).proposals) == burned_deposits(state.proposals)
            + if deposit_burned(status) {
            state.proposal(id).deposit as int
        } else {
            0
        },
{
    let changed = with_status(state.proposal(id), status);
    lemma_escrow_update(state.proposals, id - 1, changed, false);
    lemma_escrow_update(state.proposals, id - 1, changed, true);
}

/// What executing a proposal with a locked deposit does to balances and
/// deposits.
proof fn lemma_executed(state: GovernanceState, id: u64)
    requires
        state.wf(),
        state.has_proposal(id),
        deposit_locked(state.proposal(id).status),
    ensures
        ({
            let next = state.execute(id);
            let p = state.proposal(id);
            &&& next.proposals == state.proposals.update(
                id - 1,
                with_status(p, next.proposal(id).status),
            )
            &&& next.proposal(id).status == ProposalStatus::Executed || next.proposal(id).status
                == ProposalStatus::ExecutionFailed
            &&& burned_deposits(next.proposals) == burned_deposits(state.proposals)
            &&& next.ballots == state.ballots
            &&& next.total_staked == state.total_staked
            &&& next.proposal(id).status == ProposalStatus::Executed ==> {
                &&& next.stake_of(p.proposer) == state.stake_of(p.proposer) + p.deposit
                &&& sum_amounts(next.accounts) == sum_amounts(state.accounts) + p.deposit
                &&& locked_deposits(next.proposals) == locked_deposits(state.proposals)
                    - p.deposit
            }
            &&& next.proposal(id).status == ProposalStatus::ExecutionFailed ==> {
                &&& next.accounts == state.accounts
                &&& next.config == state.config
                &&& locked_deposits(next.proposals) == locked_deposits(state.proposals)
            }
        }),
{
    let p = state.proposal(id);
    assert(proposal_in_order(state.proposals[id - 1], id - 1));
    match state.config.apply(p.proposal_type, p.execution_payload@) {
        Ok(config) => {
            let applied = GovernanceState { config, ..state };
            lemma_settle(applied, id, ProposalStatus::Executed);
            lemma_balance_bounds(state, p.proposer);
            lemma_with_balance(
                state.accounts,
                p.proposer,
                (state.stake_of(p.proposer) + p.deposit) as i128,
            );
        },
        Err(_) => {
            lemma_settle(state, id, ProposalStatus::ExecutionFailed);
        },
    }
}

/// A vote at or after the end of the window is always refused. If the
/// proposal was still active it is marked failed and its deposit burned;
/// a further late vote then changes nothing more.
pub proof fn law_late_vote_fails_proposal(
    state: GovernanceState,
    id: u64,
    voter: Address,
    support: bool,
    now: u64,
    again_voter: Address,
    again_support: bool,
    later: u64,
)
    requires
        state.wf(),
        state.has_proposal(id),
        now >= state.proposal(id).voting_ends,
        later >= state.proposal(id).voting_ends,
    ensures
        ({
            let next = state.after_vote(id, voter, support, now);
            &&& state.vote_result(id, voter, support, now) == Err::<(), OracleError>(
                OracleError::InvalidPrice,
            )
            &&& state.proposal(id).status == ProposalStatus::Active ==> {
                &&& next == state.expire(id)
                &&& next.proposal(id).status == ProposalStatus::Failed
                &&& next.accounts == state.accounts
                &&& next.ballots == state.ballots
                &&& next.proposal(id).votes_for == state.proposal(id).votes_for
                &&& next.proposal(id).votes_against == state.proposal(id).votes_against
            }
            &&& state.proposal(id).status != ProposalStatus::Active ==> next == state
            &&& next.vote_result(id, again_voter, again_support, later) == Err::<(), OracleError>(
                OracleError::InvalidPrice,
            )
            &&& next.after_vote(id, again_voter, again_support, later) == next
        }),
{
}

/// A new proposal is active with empty tallies, and its window ends exactly
/// one day after its creation for an emergency pause and exactly seven days
/// after it for every other kind. The proposer's balance goes down by
/// exactly the deposit and the running total stays as it is.
pub proof fn law_creation(
    state: GovernanceState,
    proposer: Address,
    kind: ProposalType,
    description: String,
    payload: Vec<u8>,
    now: u64,
)
    requires
        state.wf(),
        state.create_result(proposer, kind, now) is Ok,
    ensures
        ({
            let next = state.after_create(proposer, kind, description, payload, now);
            let id = state.create_result(proposer, kind, now)->Ok_0;
            &&& id == state.proposals.len() + 1
            &&& next.has_proposal(id)
            &&& !state.has_proposal(id)
            &&& next.proposal(id).status == ProposalStatus::Active
            &&& next.proposal(id).votes_for == 0
            &&& next.proposal(id).votes_against == 0
            &&& next.proposal(id).deposit == PROPOSAL_DEPOSIT
            &&& kind == ProposalType::EmergencyPause ==> next.proposal(id).voting_ends == now
                + EMERGENCY_VOTING_PERIOD_SECONDS
            &&& kind != ProposalType::EmergencyPause ==> next.proposal(id).voting_ends == now
                + VOTING_PERIOD_SECONDS
            &&& EMERGENCY_VOTING_PERIOD_SECONDS == 86_400
            &&& VOTING_PERIOD_SECONDS == 604_800
            &&& next.stake_of(proposer) == state.stake_of(proposer) - PROPOSAL_DEPOSIT
            &&& next.total_staked == state.total_staked
            &&& forall|other: u64|
                state.has_proposal(other) ==> #[trigger] next.proposal(other) == state.proposal(
                    other,
                )
        }),
{
    lemma_balance_bounds(state, proposer);
    lemma_with_balance(
        state.accounts,
        proposer,
        (state.stake_of(proposer) - PROPOSAL_DEPOSIT) as i128,
    );
}

/// An accepted vote that gives the proposal quorum and approval executes it
/// within the same step: afterwards the proposal is `Executed` or
/// `ExecutionFailed`, never `Active`. An accepted vote that does not leaves
/// it active with the ballot counted.
pub proof fn law_vote_executes_at_once(
    state: GovernanceState,
    id: u64,
    voter: Address,
    support: bool,
    now: u64,
)
    requires
        state.wf(),
        state.vote_result(id, voter, support, now) is Ok,
    ensures
        ({
            let recorded = state.record_ballot(id, voter, support);
            let next = state.after_vote(id, voter, support, now);
            &&& recorded.can_execute(id) ==> next.proposal(id).status == ProposalStatus::Executed
                || next.proposal(id).status == ProposalStatus::ExecutionFailed
            &&& !recorded.can_execute(id) ==> next == recorded && next.proposal(id).status
                == ProposalStatus::Active
            &&& support ==> recorded.proposal(id).votes_for == state.proposal(id).votes_for
                + state.stake_of(voter) && recorded.proposal(id).votes_against == state.proposal(
                id,
            ).votes_against
            &&& !support ==> recorded.proposal(id).votes_against == state.proposal(
                id,
            ).votes_against + state.stake_of(voter) && recorded.proposal(id).votes_for
                == state.proposal(id).votes_for
        }),
{
    lemma_record_ballot_wf(state, id, voter, support, now);
    let recorded = state.record_ballot(id, voter, support);
    if recorded.can_execute(id) {
        lemma_executed(recorded, id);
    }
}

/// Executing a removal while no more than `MIN_ORACLES` oracles are listed
/// fails: the proposal becomes `ExecutionFailed`, and nothing else changes.
/// A removal that succeeds leaves at least `MIN_ORACLES` oracles.
pub proof fn law_removal_keeps_minimum(state: GovernanceState, id: u64)
    requires
        state.wf(),
        state.has_proposal(id),
        deposit_locked(state.proposal(id).status),
        state.proposal(id).proposal_type == ProposalType::RemoveOracle,
    ensures
        state.config.oracles.len() <= MIN_ORACLES ==> {
            &&& state.execute(id).proposal(id).status == ProposalStatus::ExecutionFailed
            &&& state.execute(id).config == state.config
            &&& state.execute(id).accounts == state.accounts
        },
        state.execute(id).proposal(id).status == ProposalStatus::Executed ==> state.execute(
            id,
        ).config.oracles.len() >= MIN_ORACLES,
        state.execute(id).config.oracles.len() >= MIN_ORACLES || state.execute(id).config.oracles
            == state.config.oracles,
{
    let p = state.proposal(id);
    lemma_executed(state, id);
    match state.config.remove_oracle(p.execution_payload@) {
        Ok(config) => {
            let oracle = crate::oracle::payload::oracle_address_of(p.execution_payload@)->Ok_0;
            lemma_without_member(state.config.oracles, oracle);
        },
        Err(_) => {},
    }
}

/// Only an active proposal can be cancelled, and only by the admin: on a
/// cancelled, executed or otherwise inactive proposal the call fails and
/// changes nothing. A cancellation that succeeds returns the whole deposit
/// to the proposer, whatever the tallies are, and leaves the tallies and
/// the running total alone.
pub proof fn law_cancellation(state: GovernanceState, caller: Address, id: u64)
    requires
        state.wf(),
        state.has_proposal(id),
    ensures
        ({
            let next = state.after_cancel(caller, id);
            let p = state.proposal(id);
            &&& p.status != ProposalStatus::Active ==> state.cancel_result(caller, id) is Err
                && next == state
            &&& state.admin != Some(caller) ==> state.cancel_result(caller, id) == Err::<
                (),
                OracleError,
            >(OracleError::Unauthorized) && next == state
            &&& state.cancel_result(caller, id) is Ok <==> state.admin == Some(caller) && p.status
                == ProposalStatus::Active
            &&& state.cancel_result(caller, id) is Ok ==> {
                &&& next.proposal(id).status == ProposalStatus::Cancelled
                &&& next.stake_of(p.proposer) == state.stake_of(p.proposer) + PROPOSAL_DEPOSIT
                &&& next.proposal(id).votes_for == p.votes_for
                &&& next.proposal(id).votes_against == p.votes_against
                &&& next.total_staked == state.total_staked
            }
        }),
{
    if state.cancel_result(caller, id) is Ok {
        let p = state.proposal(id);
        assert(proposal_in_order(state.proposals[id - 1], id - 1));
        lemma_balance_bounds(state, p.proposer);
        lemma_with_balance(
            state.accounts,
            p.proposer,
            (state.stake_of(p.proposer) + p.deposit) as i128,
        );
    }
}

} // verus!
