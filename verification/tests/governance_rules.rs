use stellar_swipe::address::Address;
use stellar_swipe::oracle::errors::OracleError;
use stellar_swipe::oracle::governance::OracleGovernance;
use stellar_swipe::oracle::payload::{decode_oracle_address, decode_parameter};
use stellar_swipe::oracle::proposal::{
    OracleProposal, ProposalStatus, ProposalType, EMERGENCY_VOTING_PERIOD_SECONDS,
    PROPOSAL_DEPOSIT, VOTING_PERIOD_SECONDS,
};
use stellar_swipe::oracle::registry::{OracleConfig, OracleReputation};
use stellar_swipe::oracle::tally::{has_approval, has_quorum, is_approved, is_quorum_reached};

const XLM: i128 = 10_000_000;

fn addr(tag: u8) -> Address {
    Address::new([tag; 32])
}

fn engine_with_admin() -> (OracleGovernance, Address) {
    let mut gov = OracleGovernance::new();
    let admin = addr(0xAD);
    gov.initialize(admin);
    (gov, admin)
}

fn oracle_payload(oracle: &Address) -> Vec<u8> {
    oracle.bytes.to_vec()
}

fn parameter_payload(key: u64, value: i128) -> Vec<u8> {
    let mut payload = key.to_le_bytes().to_vec();
    payload.extend_from_slice(&value.to_le_bytes());
    payload
}

fn propose(gov: &mut OracleGovernance, who: Address, kind: ProposalType, payload: Vec<u8>, now: u64) -> u64 {
    gov.create_proposal(who, kind, String::from("change"), payload, now).unwrap()
}

fn sum_of_balances(gov: &OracleGovernance) -> i128 {
    gov.accounts.iter().map(|a| a.amount).sum()
}

fn tallies(votes_for: i128, votes_against: i128, kind: ProposalType) -> OracleProposal {
    OracleProposal {
        id: 1,
        proposer: addr(1),
        proposal_type: kind,
        description: String::new(),
        votes_for,
        votes_against,
        voting_ends: 0,
        status: ProposalStatus::Active,
        execution_payload: Vec::new(),
        deposit: PROPOSAL_DEPOSIT,
    }
}

// ----- stake ledger -----

#[test]
fn total_equals_sum_of_balances_over_deposits_and_withdrawals() {
    let mut gov = OracleGovernance::new();
    let (a, b, c) = (addr(1), addr(2), addr(3));
    assert_eq!(gov.get_total_staked(), 0);
    assert_eq!(gov.get_stake(&a), 0);

    let steps: [(bool, Address, i128); 8] = [
        (true, a, 500),
        (true, b, 7),
        (false, a, 200),
        (true, c, 1_000_000),
        (false, b, 7),
        (true, a, 1),
        (false, c, 999_999),
        (false, a, 301),
    ];
    let mut expected_total: i128 = 0;
    for (deposit, who, amount) in steps {
        if deposit {
            gov.deposit_stake(who, amount).unwrap();
            expected_total += amount;
        } else {
            gov.withdraw_stake(who, amount).unwrap();
            expected_total -= amount;
        }
        assert_eq!(gov.get_total_staked(), expected_total);
        assert_eq!(gov.get_total_staked(), sum_of_balances(&gov));
    }
    assert_eq!(gov.get_stake(&a), 0);
    assert_eq!(gov.get_stake(&b), 0);
    assert_eq!(gov.get_stake(&c), 1);
    assert_eq!(gov.get_total_staked(), 1);
    // Accounts are never deleted, one per address.
    assert_eq!(gov.accounts.len(), 3);
}

#[test]
fn deposit_rejects_bad_amounts_and_changes_nothing() {
    let mut gov = OracleGovernance::new();
    let a = addr(1);
    assert_eq!(gov.deposit_stake(a, 0), Err(OracleError::InvalidPrice));
    assert_eq!(gov.deposit_stake(a, -1), Err(OracleError::InvalidPrice));
    assert_eq!(gov.deposit_stake(a, i128::MIN), Err(OracleError::InvalidPrice));
    assert_eq!(gov.get_total_staked(), 0);
    assert_eq!(gov.accounts.len(), 0);

    gov.deposit_stake(a, i128::MAX - 5).unwrap();
    // The running total cannot hold more than the largest amount.
    assert_eq!(gov.deposit_stake(addr(2), 6), Err(OracleError::InvalidPrice));
    assert_eq!(gov.get_total_staked(), i128::MAX - 5);
    assert_eq!(gov.get_stake(&addr(2)), 0);
    gov.deposit_stake(addr(2), 5).unwrap();
    assert_eq!(gov.get_total_staked(), i128::MAX);
}

#[test]
fn withdraw_rejects_bad_amounts_and_changes_nothing() {
    let mut gov = OracleGovernance::new();
    let a = addr(1);
    gov.deposit_stake(a, 100).unwrap();
    assert_eq!(gov.withdraw_stake(a, 0), Err(OracleError::InvalidPrice));
    assert_eq!(gov.withdraw_stake(a, -5), Err(OracleError::InvalidPrice));
    assert_eq!(gov.withdraw_stake(a, 101), Err(OracleError::InvalidPrice));
    assert_eq!(gov.withdraw_stake(addr(9), 1), Err(OracleError::InvalidPrice));
    assert_eq!(gov.get_stake(&a), 100);
    assert_eq!(gov.get_total_staked(), 100);
    gov.withdraw_stake(a, 100).unwrap();
    assert_eq!(gov.get_stake(&a), 0);
    assert_eq!(gov.get_total_staked(), 0);
}

// ----- quorum and approval -----

#[test]
fn quorum_and_approval_arithmetic() {
    // 6000 for, 4000 against, 10000 staked: quorum, but 60% is below 66%.
    assert!(has_quorum(6000, 4000, 10_000));
    assert!(!has_approval(6000, 4000, ProposalType::AddOracle));
    // 8000 for, 2000 against: approved.
    assert!(has_quorum(8000, 2000, 10_000));
    assert!(has_approval(8000, 2000, ProposalType::AddOracle));
    // Exactly at the thresholds.
    assert!(has_quorum(1000, 0, 10_000));
    assert!(!has_quorum(999, 0, 10_000));
    assert!(has_quorum(0, 1000, 10_000));
    assert!(has_approval(6600, 3400, ProposalType::RemoveOracle));
    assert!(!has_approval(6599, 3401, ProposalType::UpdateParameter));
    assert!(has_approval(8000, 2000, ProposalType::EmergencyPause));
    assert!(!has_approval(7999, 2001, ProposalType::EmergencyPause));
    assert!(has_approval(33, 17, ProposalType::AddOracle));
    assert!(!has_approval(32, 17, ProposalType::AddOracle));
    assert!(has_approval(4, 1, ProposalType::EmergencyPause));
    assert!(!has_approval(3, 1, ProposalType::EmergencyPause));
    // No stake, no votes.
    assert!(!has_quorum(5, 5, 0));
    assert!(!has_quorum(5, 5, -10));
    assert!(!has_quorum(0, 0, 10));
    assert!(!has_approval(0, 0, ProposalType::AddOracle));
    // Rounding is toward rejection: 1 vote of 11 staked is below 10%.
    assert!(!has_quorum(1, 0, 11));
    assert!(has_quorum(2, 0, 11));
    assert!(has_quorum(1, 0, 10));
}

#[test]
fn quorum_and_approval_at_the_limits_of_the_integers() {
    assert!(has_quorum(i128::MAX, i128::MAX, i128::MAX));
    assert!(has_quorum(i128::MAX / 10 + 1, 0, i128::MAX));
    assert!(!has_quorum(i128::MAX / 10, 0, i128::MAX));
    assert!(has_approval(i128::MAX, 0, ProposalType::EmergencyPause));
    assert!(has_approval(i128::MAX, i128::MAX / 4, ProposalType::EmergencyPause));
    assert!(!has_approval(i128::MAX / 4, i128::MAX, ProposalType::EmergencyPause));
    assert!(!has_approval(i128::MAX, i128::MAX, ProposalType::AddOracle));
    // Negative tallies follow the same arithmetic.
    assert!(!has_quorum(-5, -5, 10));
    assert!(has_quorum(20, -5, 100));
    assert!(!has_quorum(-20, 5, 100));
    assert!(has_approval(10, -5, ProposalType::AddOracle));
    assert!(!has_approval(5, -5, ProposalType::AddOracle));
    assert!(!has_approval(-5, 100, ProposalType::AddOracle));
    assert!(!has_approval(i128::MIN, i128::MAX, ProposalType::AddOracle));
}

#[test]
fn evaluator_reads_the_proposal() {
    let undecided = tallies(6000, 4000, ProposalType::AddOracle);
    assert!(is_quorum_reached(&undecided, 10_000));
    assert!(!is_approved(&undecided));
    let carried = tallies(8000, 2000, ProposalType::AddOracle);
    assert!(is_quorum_reached(&carried, 10_000));
    assert!(is_approved(&carried));
    assert!(!is_quorum_reached(&carried, 100_001));
    let emergency = tallies(7000, 3000, ProposalType::EmergencyPause);
    assert!(!is_approved(&emergency));
}

// ----- creation -----

#[test]
fn creating_a_proposal_locks_exactly_the_deposit() {
    let (mut gov, _) = engine_with_admin();
    let proposer = addr(1);
    gov.deposit_stake(proposer, PROPOSAL_DEPOSIT + 10_000_000_000).unwrap();
    let before = gov.get_stake(&proposer);
    let total_before = gov.get_total_staked();

    let id = propose(&mut gov, proposer, ProposalType::AddOracle, Vec::new(), 1_000);

    assert_eq!(id, 1);
    assert_eq!(gov.get_stake(&proposer), before - PROPOSAL_DEPOSIT);
    assert_eq!(gov.get_stake(&proposer), 10_000_000_000);
    // The deposit still counts toward the total stake.
    assert_eq!(gov.get_total_staked(), total_before);
    let stored = gov.get_proposal(id).unwrap();
    assert_eq!(stored.id, 1);
    assert_eq!(stored.proposer, proposer);
    assert_eq!(stored.proposal_type, ProposalType::AddOracle);
    assert_eq!(stored.description, "change");
    assert_eq!(stored.votes_for, 0);
    assert_eq!(stored.votes_against, 0);
    assert_eq!(stored.voting_ends, 1_000 + 7 * 24 * 60 * 60);
    assert_eq!(stored.status, ProposalStatus::Active);
    assert_eq!(stored.deposit, 10_000_000_000);
    assert_eq!(PROPOSAL_DEPOSIT, 1_000 * XLM);
}

#[test]
fn creation_fails_without_enough_stake() {
    let (mut gov, _) = engine_with_admin();
    let proposer = addr(1);
    gov.deposit_stake(proposer, PROPOSAL_DEPOSIT - 1).unwrap();
    let refused = gov.create_proposal(
        proposer,
        ProposalType::UpdateParameter,
        String::from("x"),
        Vec::new(),
        0,
    );
    assert_eq!(refused, Err(OracleError::InsufficientOracles));
    assert_eq!(gov.get_stake(&proposer), PROPOSAL_DEPOSIT - 1);
    assert_eq!(gov.proposal_count(), 0);
    assert_eq!(gov.get_proposal(1).err(), Some(OracleError::OracleNotFound));
    assert_eq!(gov.get_proposal(0).err(), Some(OracleError::OracleNotFound));

    gov.deposit_stake(proposer, 1).unwrap();
    assert_eq!(propose(&mut gov, proposer, ProposalType::UpdateParameter, Vec::new(), 0), 1);
    assert_eq!(gov.get_stake(&proposer), 0);
}

#[test]
fn creation_fails_when_the_window_cannot_be_represented() {
    let (mut gov, _) = engine_with_admin();
    let proposer = addr(1);
    gov.deposit_stake(proposer, 2 * PROPOSAL_DEPOSIT).unwrap();
    let refused = gov.create_proposal(
        proposer,
        ProposalType::AddOracle,
        String::from("x"),
        Vec::new(),
        u64::MAX - VOTING_PERIOD_SECONDS + 1,
    );
    assert_eq!(refused, Err(OracleError::InvalidPrice));
    assert_eq!(gov.get_stake(&proposer), 2 * PROPOSAL_DEPOSIT);
    let accepted = gov.create_proposal(
        proposer,
        ProposalType::AddOracle,
        String::from("x"),
        Vec::new(),
        u64::MAX - VOTING_PERIOD_SECONDS,
    );
    assert_eq!(accepted, Ok(1));
    assert_eq!(gov.get_proposal(1).unwrap().voting_ends, u64::MAX);
}

#[test]
fn emergency_pause_window_is_exactly_one_day() {
    let (mut gov, _) = engine_with_admin();
    let proposer = addr(1);
    gov.deposit_stake(proposer, 4 * PROPOSAL_DEPOSIT).unwrap();
    let created_at = 5_000;
    let pause = propose(&mut gov, proposer, ProposalType::EmergencyPause, Vec::new(), created_at);
    let add = propose(&mut gov, proposer, ProposalType::AddOracle, Vec::new(), created_at);
    let remove = propose(&mut gov, proposer, ProposalType::RemoveOracle, Vec::new(), created_at);
    let update = propose(&mut gov, proposer, ProposalType::UpdateParameter, Vec::new(), created_at);
    assert_eq!(EMERGENCY_VOTING_PERIOD_SECONDS, 86_400);
    assert_eq!(VOTING_PERIOD_SECONDS, 604_800);
    assert_eq!(gov.get_proposal(pause).unwrap().voting_ends, created_at + 86_400);
    assert_eq!(gov.get_proposal(add).unwrap().voting_ends, created_at + 604_800);
    assert_eq!(gov.get_proposal(remove).unwrap().voting_ends, created_at + 604_800);
    assert_eq!(gov.get_proposal(update).unwrap().voting_ends, created_at + 604_800);
    assert_eq!((pause, add, remove, update), (1, 2, 3, 4));
}

// ----- voting -----

#[test]
fn a_second_ballot_from_the_same_address_is_refused() {
    let (mut gov, _) = engine_with_admin();
    let (proposer, voter, whale) = (addr(1), addr(2), addr(3));
    gov.deposit_stake(proposer, PROPOSAL_DEPOSIT).unwrap();
    gov.deposit_stake(voter, 10 * XLM).unwrap();
    gov.deposit_stake(whale, 1_000_000 * XLM).unwrap();
    let id = propose(&mut gov, proposer, ProposalType::EmergencyPause, Vec::new(), 0);

    assert_eq!(gov.vote_on_proposal(id, voter, true, 10), Ok(()));
    assert!(gov.has_voted(id, &voter));
    assert_eq!(gov.get_proposal(id).unwrap().status, ProposalStatus::Active);
    assert_eq!(gov.get_proposal(id).unwrap().votes_for, 10 * XLM);

    assert_eq!(gov.vote_on_proposal(id, voter, true, 11), Err(OracleError::OracleAlreadyExists));
    assert_eq!(gov.vote_on_proposal(id, voter, false, 12), Err(OracleError::OracleAlreadyExists));
    // More stake does not buy a second ballot.
    gov.deposit_stake(voter, 500 * XLM).unwrap();
    assert_eq!(gov.vote_on_proposal(id, voter, true, 13), Err(OracleError::OracleAlreadyExists));
    let stored = gov.get_proposal(id).unwrap();
    assert_eq!(stored.votes_for, 10 * XLM);
    assert_eq!(stored.votes_against, 0);
    assert_eq!(gov.ballots.len(), 1);
    assert!(!gov.has_voted(id, &whale));
    assert!(!gov.has_voted(id + 1, &voter));
}

#[test]
fn ballots_weigh_the_stake_held_at_the_time_of_the_vote() {
    let (mut gov, _) = engine_with_admin();
    let (proposer, early, late, whale) = (addr(1), addr(2), addr(3), addr(4));
    gov.deposit_stake(proposer, PROPOSAL_DEPOSIT).unwrap();
    gov.deposit_stake(early, 30 * XLM).unwrap();
    gov.deposit_stake(late, 5 * XLM).unwrap();
    gov.deposit_stake(whale, 1_000_000 * XLM).unwrap();
    let id = propose(&mut gov, proposer, ProposalType::AddOracle, Vec::new(), 0);

    gov.vote_on_proposal(id, early, false, 1).unwrap();
    gov.deposit_stake(late, 20 * XLM).unwrap();
    gov.vote_on_proposal(id, late, true, 2).unwrap();
    gov.withdraw_stake(early, 30 * XLM).unwrap();

    let stored = gov.get_proposal(id).unwrap();
    assert_eq!(stored.votes_against, 30 * XLM);
    assert_eq!(stored.votes_for, 25 * XLM);
    // The proposer's balance is all locked, so the proposer has no weight.
    assert_eq!(gov.vote_on_proposal(id, proposer, true, 3), Err(OracleError::LowReputation));
    assert_eq!(gov.vote_on_proposal(id, addr(99), true, 3), Err(OracleError::LowReputation));
    assert!(!gov.has_voted(id, &proposer));
}

#[test]
fn vote_errors_in_order() {
    let (mut gov, admin) = engine_with_admin();
    let (proposer, voter) = (addr(1), addr(2));
    gov.deposit_stake(proposer, 2 * PROPOSAL_DEPOSIT).unwrap();
    gov.deposit_stake(voter, 1).unwrap();
    gov.deposit_stake(addr(3), 1_000_000 * XLM).unwrap();
    assert_eq!(gov.vote_on_proposal(1, voter, true, 0), Err(OracleError::OracleNotFound));
    assert_eq!(gov.vote_on_proposal(0, voter, true, 0), Err(OracleError::OracleNotFound));
    let cancelled = propose(&mut gov, proposer, ProposalType::AddOracle, Vec::new(), 0);
    let open = propose(&mut gov, proposer, ProposalType::AddOracle, Vec::new(), 0);
    gov.cancel_proposal(admin, cancelled).unwrap();
    // Not active wins over everything that follows.
    assert_eq!(
        gov.vote_on_proposal(cancelled, addr(77), true, u64::MAX),
        Err(OracleError::InvalidPrice)
    );
    assert_eq!(gov.get_proposal(cancelled).unwrap().status, ProposalStatus::Cancelled);
    gov.vote_on_proposal(open, voter, true, 5).unwrap();
    assert_eq!(gov.vote_on_proposal(open, voter, true, 5), Err(OracleError::OracleAlreadyExists));
    assert_eq!(gov.vote_on_proposal(open, addr(77), true, 5), Err(OracleError::LowReputation));
    assert_eq!(gov.vote_on_proposal(open + 1, voter, true, 5), Err(OracleError::OracleNotFound));
}

#[test]
fn a_tally_that_cannot_hold_the_weight_refuses_the_ballot() {
    let mut gov = OracleGovernance::new();
    let (proposer, first, second) = (addr(1), addr(2), addr(3));
    gov.deposit_stake(proposer, PROPOSAL_DEPOSIT).unwrap();
    let id = propose(&mut gov, proposer, ProposalType::AddOracle, Vec::new(), 0);
    let rest = i128::MAX - PROPOSAL_DEPOSIT;
    // A small ballot against keeps the large ballots in favour below approval.
    gov.deposit_stake(first, rest).unwrap();
    gov.vote_on_proposal(id, first, false, 1).unwrap();
    assert_eq!(gov.get_proposal(id).unwrap().status, ProposalStatus::Active);
    gov.withdraw_stake(first, rest).unwrap();
    gov.deposit_stake(second, rest).unwrap();
    assert_eq!(gov.vote_on_proposal(id, second, false, 2), Err(OracleError::InvalidPrice));
    let stored = gov.get_proposal(id).unwrap();
    assert_eq!(stored.votes_against, rest);
    assert_eq!(stored.status, ProposalStatus::Active);
    assert!(!gov.has_voted(id, &second));
}

#[test]
fn late_vote_fails_the_proposal_and_burns_the_deposit() {
    let (mut gov, _) = engine_with_admin();
    let (proposer, voter) = (addr(1), addr(2));
    gov.deposit_stake(proposer, PROPOSAL_DEPOSIT + 7).unwrap();
    gov.deposit_stake(voter, 500_000 * XLM).unwrap();
    let id = propose(&mut gov, proposer, ProposalType::AddOracle, Vec::new(), 100);
    let ends = gov.get_proposal(id).unwrap().voting_ends;
    let total = gov.get_total_staked();

    // One second before the end the window is open; at the end it is closed.
    assert_eq!(gov.vote_on_proposal(id, addr(50), true, ends - 1), Err(OracleError::LowReputation));
    assert_eq!(gov.get_proposal(id).unwrap().status, ProposalStatus::Active);
    assert_eq!(gov.vote_on_proposal(id, voter, true, ends), Err(OracleError::InvalidPrice));
    let stored = gov.get_proposal(id).unwrap();
    assert_eq!(stored.status, ProposalStatus::Failed);
    assert_eq!(stored.votes_for, 0);
    assert!(!gov.has_voted(id, &voter));
    // Burned: credited to nobody, still part of the running total.
    assert_eq!(gov.get_stake(&proposer), 7);
    assert_eq!(gov.get_stake(&voter), 500_000 * XLM);
    assert_eq!(gov.get_total_staked(), total);

    // Repeated late votes change nothing more.
    assert_eq!(gov.vote_on_proposal(id, voter, true, ends + 1), Err(OracleError::InvalidPrice));
    assert_eq!(gov.vote_on_proposal(id, proposer, false, u64::MAX), Err(OracleError::InvalidPrice));
    assert_eq!(gov.get_proposal(id).unwrap().status, ProposalStatus::Failed);
    assert_eq!(gov.get_stake(&proposer), 7);
    assert_eq!(gov.get_total_staked(), total);
    assert_eq!(gov.finalise_proposal(id, u64::MAX), Ok(ProposalStatus::Failed));
    assert_eq!(gov.retry_execution(id), Err(OracleError::InvalidPrice));
}

// ----- eager execution -----

#[test]
fn a_deciding_vote_executes_within_the_same_call() {
    let (mut gov, _) = engine_with_admin();
    let (proposer, voter, oracle) = (addr(1), addr(2), addr(0x0A));
    gov.deposit_stake(proposer, PROPOSAL_DEPOSIT + 3).unwrap();
    gov.deposit_stake(voter, 2_000 * XLM).unwrap();
    let id = propose(&mut gov, proposer, ProposalType::AddOracle, oracle_payload(&oracle), 0);
    assert_eq!(gov.get_stake(&proposer), 3);

    gov.vote_on_proposal(id, voter, true, 1).unwrap();

    let stored = gov.get_proposal(id).unwrap();
    assert_eq!(stored.status, ProposalStatus::Executed);
    assert_eq!(stored.votes_for, 2_000 * XLM);
    assert!(gov.config.is_member(&oracle));
    assert_eq!(gov.config.oracles, vec![oracle]);
    assert_eq!(gov.config.records.len(), 1);
    assert_eq!(gov.config.records[0].oracle, oracle);
    assert_eq!(
        gov.config.records[0].reputation,
        OracleReputation {
            total_submissions: 0,
            accurate_submissions: 0,
            avg_deviation: 0,
            reputation_score: 50,
            weight: 1,
            last_slash: 0,
        }
    );
    // The deposit is back with the proposer.
    assert_eq!(gov.get_stake(&proposer), PROPOSAL_DEPOSIT + 3);
    assert_eq!(gov.get_total_staked(), sum_of_balances(&gov));
    // Settled for good.
    assert_eq!(gov.retry_execution(id), Err(OracleError::InvalidPrice));
    assert_eq!(gov.finalise_proposal(id, u64::MAX), Ok(ProposalStatus::Executed));
    assert_eq!(gov.get_stake(&proposer), PROPOSAL_DEPOSIT + 3);
}

#[test]
fn failed_execution_keeps_the_deposit_locked_until_a_retry_succeeds() {
    let (mut gov, _) = engine_with_admin();
    let (proposer, voter) = (addr(1), addr(2));
    let (o1, o2, o3) = (addr(0xA1), addr(0xA2), addr(0xA3));
    gov.deposit_stake(proposer, 4 * PROPOSAL_DEPOSIT).unwrap();
    gov.deposit_stake(voter, 10_000 * XLM).unwrap();

    let add1 = propose(&mut gov, proposer, ProposalType::AddOracle, oracle_payload(&o1), 0);
    gov.vote_on_proposal(add1, voter, true, 0).unwrap();
    let add2 = propose(&mut gov, proposer, ProposalType::AddOracle, oracle_payload(&o2), 0);
    gov.vote_on_proposal(add2, voter, true, 0).unwrap();
    assert_eq!(gov.config.oracles, vec![o1, o2]);
    assert_eq!(gov.get_stake(&proposer), 4 * PROPOSAL_DEPOSIT);

    // Removing one of two oracles would leave fewer than two.
    let remove = propose(&mut gov, proposer, ProposalType::RemoveOracle, oracle_payload(&o1), 0);
    gov.vote_on_proposal(remove, voter, true, 0).unwrap();
    assert_eq!(gov.get_proposal(remove).unwrap().status, ProposalStatus::ExecutionFailed);
    assert_eq!(gov.config.oracles, vec![o1, o2]);
    assert_eq!(gov.get_stake(&proposer), 3 * PROPOSAL_DEPOSIT);

    // A retry in the same situation fails again and is still a successful call.
    assert_eq!(gov.retry_execution(remove), Ok(()));
    assert_eq!(gov.get_proposal(remove).unwrap().status, ProposalStatus::ExecutionFailed);
    assert_eq!(gov.get_stake(&proposer), 3 * PROPOSAL_DEPOSIT);
    // Waiting proposals take no votes and are not swept.
    assert_eq!(gov.vote_on_proposal(remove, addr(9), true, 0), Err(OracleError::InvalidPrice));
    assert_eq!(gov.finalise_proposal(remove, u64::MAX), Ok(ProposalStatus::ExecutionFailed));

    let add3 = propose(&mut gov, proposer, ProposalType::AddOracle, oracle_payload(&o3), 0);
    gov.vote_on_proposal(add3, voter, true, 0).unwrap();
    assert_eq!(gov.config.oracles, vec![o1, o2, o3]);
    assert_eq!(gov.get_stake(&proposer), 3 * PROPOSAL_DEPOSIT);

    // Anyone may retry; with three oracles the removal goes through.
    assert_eq!(gov.retry_execution(remove), Ok(()));
    assert_eq!(gov.get_proposal(remove).unwrap().status, ProposalStatus::Executed);
    assert_eq!(gov.config.oracles, vec![o2, o3]);
    assert_eq!(gov.get_stake(&proposer), 4 * PROPOSAL_DEPOSIT);
    assert_eq!(gov.retry_execution(remove), Err(OracleError::InvalidPrice));
    assert_eq!(gov.retry_execution(99), Err(OracleError::OracleNotFound));
    assert_eq!(gov.get_total_staked(), sum_of_balances(&gov));
}

#[test]
fn adding_a_member_twice_fails_execution() {
    let (mut gov, _) = engine_with_admin();
    let (proposer, voter, oracle) = (addr(1), addr(2), addr(0xB0));
    gov.deposit_stake(proposer, 2 * PROPOSAL_DEPOSIT).unwrap();
    gov.deposit_stake(voter, 10_000 * XLM).unwrap();
    let first = propose(&mut gov, proposer, ProposalType::AddOracle, oracle_payload(&oracle), 0);
    let second = propose(&mut gov, proposer, ProposalType::AddOracle, oracle_payload(&oracle), 0);
    gov.vote_on_proposal(first, voter, true, 0).unwrap();
    gov.vote_on_proposal(second, voter, true, 0).unwrap();
    assert_eq!(gov.get_proposal(first).unwrap().status, ProposalStatus::Executed);
    assert_eq!(gov.get_proposal(second).unwrap().status, ProposalStatus::ExecutionFailed);
    assert_eq!(gov.config.oracles, vec![oracle]);
    assert_eq!(gov.get_stake(&proposer), PROPOSAL_DEPOSIT);
}

#[test]
fn parameter_updates_and_pause() {
    let (mut gov, _) = engine_with_admin();
    let (proposer, voter) = (addr(1), addr(2));
    gov.deposit_stake(proposer, 6 * PROPOSAL_DEPOSIT).unwrap();
    gov.deposit_stake(voter, 100_000 * XLM).unwrap();
    let cases: [(u64, i128, ProposalStatus); 5] = [
        (0, 5, ProposalStatus::Executed),
        (1, 3_600, ProposalStatus::Executed),
        (2, -250, ProposalStatus::Executed),
        (3, 1, ProposalStatus::ExecutionFailed),
        (u64::MAX, 1, ProposalStatus::ExecutionFailed),
    ];
    for (key, value, expected) in cases {
        let id = propose(
            &mut gov,
            proposer,
            ProposalType::UpdateParameter,
            parameter_payload(key, value),
            0,
        );
        gov.vote_on_proposal(id, voter, true, 0).unwrap();
        assert_eq!(gov.get_proposal(id).unwrap().status, expected);
    }
    assert_eq!(gov.config.min_oracles, Some(5));
    assert_eq!(gov.config.price_ttl, Some(3_600));
    assert_eq!(gov.config.max_deviation_bps, Some(-250));
    assert!(!gov.config.paused);

    let pause = propose(&mut gov, proposer, ProposalType::EmergencyPause, Vec::new(), 0);
    gov.vote_on_proposal(pause, voter, true, 0).unwrap();
    assert_eq!(gov.get_proposal(pause).unwrap().status, ProposalStatus::Executed);
    assert!(gov.config.paused);
    // Two deposits stay locked with the two failed executions.
    assert_eq!(gov.get_stake(&proposer), 4 * PROPOSAL_DEPOSIT);
}

#[test]
fn emergency_pause_needs_four_fifths() {
    let (mut gov, _) = engine_with_admin();
    let (proposer, yes, no) = (addr(1), addr(2), addr(3));
    gov.deposit_stake(proposer, 2 * PROPOSAL_DEPOSIT).unwrap();
    gov.deposit_stake(yes, 7_000 * XLM).unwrap();
    gov.deposit_stake(no, 3_000 * XLM).unwrap();
    let pause = propose(&mut gov, proposer, ProposalType::EmergencyPause, Vec::new(), 0);
    let update = propose(
        &mut gov,
        proposer,
        ProposalType::UpdateParameter,
        parameter_payload(1, 60),
        0,
    );
    for id in [pause, update] {
        gov.vote_on_proposal(id, no, false, 0).unwrap();
        gov.vote_on_proposal(id, yes, true, 0).unwrap();
    }
    // 70% in favour carries an ordinary proposal but not an emergency pause.
    assert_eq!(gov.get_proposal(update).unwrap().status, ProposalStatus::Executed);
    assert_eq!(gov.get_proposal(pause).unwrap().status, ProposalStatus::Active);
    assert!(!gov.config.paused);
    assert_eq!(
        gov.finalise_proposal(pause, EMERGENCY_VOTING_PERIOD_SECONDS),
        Ok(ProposalStatus::Failed)
    );
}

// ----- finalisation -----

#[test]
fn finalise_waits_for_the_end_of_the_window() {
    let (mut gov, _) = engine_with_admin();
    let (proposer, voter, whale) = (addr(1), addr(2), addr(3));
    gov.deposit_stake(proposer, PROPOSAL_DEPOSIT).unwrap();
    gov.deposit_stake(voter, 200 * XLM).unwrap();
    gov.deposit_stake(whale, 1_000_000 * XLM).unwrap();
    let id = propose(&mut gov, proposer, ProposalType::EmergencyPause, Vec::new(), 50);
    gov.vote_on_proposal(id, voter, true, 60).unwrap();
    let ends = 50 + EMERGENCY_VOTING_PERIOD_SECONDS;

    assert_eq!(gov.finalise_proposal(id, ends - 1), Ok(ProposalStatus::Active));
    assert_eq!(gov.get_proposal(id).unwrap().status, ProposalStatus::Active);
    assert_eq!(gov.finalise_proposal(99, ends), Err(OracleError::OracleNotFound));

    // The whale leaves; now the one ballot of 200 is more than a tenth of the
    // 1 200 that remain staked, the locked deposit included.
    gov.withdraw_stake(whale, 1_000_000 * XLM).unwrap();
    assert_eq!(gov.finalise_proposal(id, ends), Ok(ProposalStatus::Executed));
    assert!(gov.config.paused);
    assert_eq!(gov.get_stake(&proposer), PROPOSAL_DEPOSIT);
}

// ----- cancellation -----

#[test]
fn cancelling_returns_the_deposit_whatever_the_tally() {
    let (mut gov, admin) = engine_with_admin();
    let (proposer, voter, whale) = (addr(1), addr(2), addr(3));
    gov.deposit_stake(proposer, PROPOSAL_DEPOSIT + 1).unwrap();
    gov.deposit_stake(voter, 20 * XLM).unwrap();
    gov.deposit_stake(whale, 1_000_000 * XLM).unwrap();
    let id = propose(&mut gov, proposer, ProposalType::AddOracle, Vec::new(), 0);
    gov.vote_on_proposal(id, voter, false, 0).unwrap();
    let total = gov.get_total_staked();

    assert_eq!(gov.cancel_proposal(admin, id), Ok(()));
    let stored = gov.get_proposal(id).unwrap();
    assert_eq!(stored.status, ProposalStatus::Cancelled);
    assert_eq!(stored.votes_against, 20 * XLM);
    assert_eq!(gov.get_stake(&proposer), PROPOSAL_DEPOSIT + 1);
    assert_eq!(gov.get_total_staked(), total);
    assert_eq!(gov.get_total_staked(), sum_of_balances(&gov));

    // A cancelled proposal cannot be cancelled again.
    assert_eq!(gov.cancel_proposal(admin, id), Err(OracleError::InvalidPrice));
    assert_eq!(gov.get_stake(&proposer), PROPOSAL_DEPOSIT + 1);
    assert_eq!(gov.finalise_proposal(id, u64::MAX), Ok(ProposalStatus::Cancelled));
}

#[test]
fn cancelling_an_executed_proposal_fails() {
    let (mut gov, admin) = engine_with_admin();
    let (proposer, voter) = (addr(1), addr(2));
    gov.deposit_stake(proposer, PROPOSAL_DEPOSIT).unwrap();
    gov.deposit_stake(voter, 5_000 * XLM).unwrap();
    let id = propose(&mut gov, proposer, ProposalType::EmergencyPause, Vec::new(), 0);
    gov.vote_on_proposal(id, voter, true, 0).unwrap();
    assert_eq!(gov.get_proposal(id).unwrap().status, ProposalStatus::Executed);
    assert_eq!(gov.cancel_proposal(admin, id), Err(OracleError::InvalidPrice));
    assert_eq!(gov.get_stake(&proposer), PROPOSAL_DEPOSIT);
    assert_eq!(gov.get_proposal(id).unwrap().status, ProposalStatus::Executed);
}

#[test]
fn cancel_errors_in_order() {
    let mut gov = OracleGovernance::new();
    let (admin, proposer) = (addr(0xAD), addr(1));
    gov.deposit_stake(proposer, PROPOSAL_DEPOSIT).unwrap();
    let id = propose(&mut gov, proposer, ProposalType::AddOracle, Vec::new(), 0);
    // No admin installed yet.
    assert!(!gov.is_initialized());
    assert_eq!(gov.require_gov_admin(&admin), Err(OracleError::Unauthorized));
    assert_eq!(gov.cancel_proposal(admin, id), Err(OracleError::Unauthorized));
    gov.initialize(admin);
    assert!(gov.is_initialized());
    assert_eq!(gov.require_gov_admin(&admin), Ok(()));
    assert_eq!(gov.require_gov_admin(&proposer), Err(OracleError::Unauthorized));
    // The admin check comes before the lookup.
    assert_eq!(gov.cancel_proposal(proposer, 99), Err(OracleError::Unauthorized));
    assert_eq!(gov.cancel_proposal(admin, 99), Err(OracleError::OracleNotFound));
    assert_eq!(gov.cancel_proposal(proposer, id), Err(OracleError::Unauthorized));
    assert_eq!(gov.get_proposal(id).unwrap().status, ProposalStatus::Active);
    assert_eq!(gov.get_stake(&proposer), 0);
    assert_eq!(gov.cancel_proposal(admin, id), Ok(()));
}

// ----- deposits over a whole run -----

#[test]
fn every_deposit_is_settled_exactly_once() {
    let (mut gov, admin) = engine_with_admin();
    let (proposer, voter) = (addr(1), addr(2));
    gov.deposit_stake(proposer, 4 * PROPOSAL_DEPOSIT).unwrap();
    gov.deposit_stake(voter, 100_000 * XLM).unwrap();
    let total = gov.get_total_staked();

    let executed = propose(&mut gov, proposer, ProposalType::EmergencyPause, Vec::new(), 0);
    let failed = propose(&mut gov, proposer, ProposalType::AddOracle, Vec::new(), 0);
    let cancelled = propose(&mut gov, proposer, ProposalType::AddOracle, Vec::new(), 0);
    let stuck = propose(&mut gov, proposer, ProposalType::RemoveOracle, Vec::new(), 0);
    assert_eq!(gov.get_stake(&proposer), 0);

    gov.vote_on_proposal(executed, voter, true, 1).unwrap();
    assert_eq!(gov.get_stake(&proposer), PROPOSAL_DEPOSIT);
    gov.cancel_proposal(admin, cancelled).unwrap();
    assert_eq!(gov.get_stake(&proposer), 2 * PROPOSAL_DEPOSIT);
    gov.vote_on_proposal(stuck, voter, true, 1).unwrap();
    assert_eq!(gov.get_proposal(stuck).unwrap().status, ProposalStatus::ExecutionFailed);
    assert_eq!(gov.get_stake(&proposer), 2 * PROPOSAL_DEPOSIT);
    assert_eq!(
        gov.finalise_proposal(failed, VOTING_PERIOD_SECONDS),
        Ok(ProposalStatus::Failed)
    );
    assert_eq!(gov.get_stake(&proposer), 2 * PROPOSAL_DEPOSIT);

    // Nothing that follows moves a settled deposit again.
    for _ in 0..3 {
        let _ = gov.finalise_proposal(executed, u64::MAX);
        let _ = gov.finalise_proposal(failed, u64::MAX);
        let _ = gov.finalise_proposal(cancelled, u64::MAX);
        let _ = gov.cancel_proposal(admin, executed);
        let _ = gov.cancel_proposal(admin, failed);
        let _ = gov.cancel_proposal(admin, cancelled);
        let _ = gov.retry_execution(executed);
        let _ = gov.retry_execution(failed);
        let _ = gov.retry_execution(cancelled);
        let _ = gov.vote_on_proposal(executed, proposer, true, u64::MAX);
        let _ = gov.vote_on_proposal(failed, proposer, true, u64::MAX);
        let _ = gov.vote_on_proposal(cancelled, proposer, true, u64::MAX);
    }
    assert_eq!(gov.get_proposal(executed).unwrap().status, ProposalStatus::Executed);
    assert_eq!(gov.get_proposal(failed).unwrap().status, ProposalStatus::Failed);
    assert_eq!(gov.get_proposal(cancelled).unwrap().status, ProposalStatus::Cancelled);
    assert_eq!(gov.get_stake(&proposer), 2 * PROPOSAL_DEPOSIT);
    // Balances, plus one locked and one burned deposit, make up the total.
    assert_eq!(gov.get_total_staked(), total);
    assert_eq!(sum_of_balances(&gov) + 2 * PROPOSAL_DEPOSIT, total);
}

// ----- payloads and the registry -----

#[test]
fn decoding_an_oracle_address() {
    assert_eq!(decode_oracle_address(&Vec::new()), Err(OracleError::InvalidPrice));
    assert_eq!(decode_oracle_address(&vec![7u8; 31]), Err(OracleError::InvalidPrice));
    let mut bytes: Vec<u8> = (0u8..40).collect();
    let expected: [u8; 32] = core::array::from_fn(|i| i as u8);
    assert_eq!(decode_oracle_address(&bytes), Ok(Address::new(expected)));
    bytes.truncate(32);
    assert_eq!(decode_oracle_address(&bytes), Ok(Address::new(expected)));
    assert_eq!(Address::from_prefix(&bytes), Some(Address::new(expected)));
    assert!(Address::new([1; 32]) != Address::new([2; 32]));
    let mut almost = [1u8; 32];
    almost[31] = 2;
    assert!(Address::new([1; 32]) != Address::new(almost));
}

#[test]
fn decoding_a_parameter() {
    assert_eq!(decode_parameter(&Vec::new()), Err(OracleError::InvalidPrice));
    assert_eq!(decode_parameter(&vec![0u8; 23]), Err(OracleError::InvalidPrice));
    assert_eq!(decode_parameter(&vec![0u8; 24]), Ok((0, 0)));
    assert_eq!(decode_parameter(&vec![0xFFu8; 24]), Ok((u64::MAX, -1)));
    let values: [(u64, i128); 7] = [
        (1, 1),
        (2, -1),
        (0x0102_0304_0506_0708, 0x0102_0304_0506_0708_090A_0B0C_0D0E_0F10),
        (u64::MAX, i128::MAX),
        (0, i128::MIN),
        (256, -256),
        (1 << 63, 1 << 64),
    ];
    for (key, value) in values {
        assert_eq!(decode_parameter(&parameter_payload(key, value)), Ok((key, value)));
        let mut longer = parameter_payload(key, value);
        longer.push(0xEE);
        assert_eq!(decode_parameter(&longer), Ok((key, value)));
    }
    // Byte 0 is the least significant byte of the key.
    let mut payload = vec![0u8; 24];
    payload[0] = 2;
    payload[1] = 1;
    payload[8] = 3;
    payload[23] = 0x80;
    assert_eq!(decode_parameter(&payload), Ok((258, i128::MIN + 3)));
}

#[test]
fn registry_handlers() {
    let mut config = OracleConfig::new();
    let (a, b, c) = (addr(1), addr(2), addr(3));
    assert_eq!(config.exec_add_oracle(&vec![1u8; 5]), Err(OracleError::InvalidPrice));
    assert_eq!(config.exec_add_oracle(&oracle_payload(&a)), Ok(()));
    assert_eq!(config.exec_add_oracle(&oracle_payload(&a)), Err(OracleError::OracleAlreadyExists));
    assert_eq!(config.exec_add_oracle(&oracle_payload(&b)), Ok(()));
    assert_eq!(
        config.exec_remove_oracle(&oracle_payload(&a)),
        Err(OracleError::InsufficientOracles)
    );
    assert_eq!(config.exec_remove_oracle(&Vec::new()), Err(OracleError::InvalidPrice));
    assert_eq!(config.exec_add_oracle(&oracle_payload(&c)), Ok(()));
    // Removing an address that is no member succeeds and removes nothing.
    assert_eq!(config.exec_remove_oracle(&oracle_payload(&addr(9))), Ok(()));
    assert_eq!(config.oracles, vec![a, b, c]);
    assert_eq!(config.exec_remove_oracle(&oracle_payload(&b)), Ok(()));
    assert_eq!(config.oracles, vec![a, c]);
    assert_eq!(
        config.exec_remove_oracle(&oracle_payload(&c)),
        Err(OracleError::InsufficientOracles)
    );
    assert_eq!(config.oracles, vec![a, c]);
    // A returning oracle starts over with one record.
    config.records[1].reputation.reputation_score = 90;
    assert_eq!(config.exec_add_oracle(&oracle_payload(&b)), Ok(()));
    assert_eq!(config.oracles, vec![a, c, b]);
    assert_eq!(config.records.len(), 3);
    assert_eq!(config.records[1].oracle, b);
    assert_eq!(config.records[1].reputation.reputation_score, 50);

    // Values are cut to the width of the parameter.
    assert_eq!(config.exec_update_parameter(&parameter_payload(0, (1 << 32) + 7)), Ok(()));
    assert_eq!(config.min_oracles, Some(7));
    assert_eq!(config.exec_update_parameter(&parameter_payload(1, -1)), Ok(()));
    assert_eq!(config.price_ttl, Some(u64::MAX));
    assert_eq!(config.exec_update_parameter(&parameter_payload(2, i128::MIN)), Ok(()));
    assert_eq!(config.max_deviation_bps, Some(i128::MIN));
    assert_eq!(
        config.exec_update_parameter(&parameter_payload(3, 0)),
        Err(OracleError::InvalidPrice)
    );
    assert_eq!(config.exec_update_parameter(&vec![0u8; 10]), Err(OracleError::InvalidPrice));
    assert_eq!(config.exec_emergency_pause(), Ok(()));
    assert!(config.paused);
    assert_eq!(config.apply(ProposalType::EmergencyPause, &Vec::new()), Ok(()));
    assert_eq!(
        config.apply(ProposalType::AddOracle, &oracle_payload(&a)),
        Err(OracleError::OracleAlreadyExists)
    );
}

// ----- the invariant, checked at run time -----

fn busy_engine() -> OracleGovernance {
    let (mut gov, admin) = engine_with_admin();
    let (proposer, voter) = (addr(1), addr(2));
    gov.deposit_stake(proposer, 5 * PROPOSAL_DEPOSIT + 11).unwrap();
    gov.deposit_stake(voter, 40_000 * XLM).unwrap();
    gov.deposit_stake(addr(3), 1_000_000 * XLM).unwrap();
    let executed = propose(&mut gov, proposer, ProposalType::AddOracle, oracle_payload(&addr(0xA1)), 0);
    let stuck = propose(&mut gov, proposer, ProposalType::RemoveOracle, Vec::new(), 0);
    let failed = propose(&mut gov, proposer, ProposalType::AddOracle, Vec::new(), 0);
    let cancelled = propose(&mut gov, proposer, ProposalType::AddOracle, Vec::new(), 0);
    let _active = propose(&mut gov, proposer, ProposalType::EmergencyPause, Vec::new(), 0);
    gov.withdraw_stake(addr(3), 1_000_000 * XLM).unwrap();
    gov.vote_on_proposal(executed, voter, true, 1).unwrap();
    gov.vote_on_proposal(stuck, voter, true, 1).unwrap();
    gov.finalise_proposal(failed, VOTING_PERIOD_SECONDS).unwrap();
    gov.cancel_proposal(admin, cancelled).unwrap();
    gov.deposit_stake(addr(3), 1_000_000 * XLM).unwrap();
    gov.vote_on_proposal(5, voter, false, 2).unwrap();
    gov
}

#[test]
fn the_invariant_holds_after_every_operation_and_detects_tampering() {
    assert!(OracleGovernance::new().is_well_formed());
    let gov = busy_engine();
    assert!(gov.is_well_formed());
    assert!(gov.config.is_well_formed());
    let statuses: Vec<ProposalStatus> = gov.proposals.iter().map(|p| p.status).collect();
    assert_eq!(
        statuses,
        vec![
            ProposalStatus::Executed,
            ProposalStatus::ExecutionFailed,
            ProposalStatus::Failed,
            ProposalStatus::Cancelled,
            ProposalStatus::Active,
        ]
    );
    // Balances, plus two locked and one burned deposit, make up the total.
    assert_eq!(gov.get_total_staked(), sum_of_balances(&gov) + 3 * PROPOSAL_DEPOSIT);

    let mut tampered = busy_engine();
    tampered.total_staked += 1;
    assert!(!tampered.is_well_formed());

    let mut tampered = busy_engine();
    tampered.accounts[0].amount += 1;
    assert!(!tampered.is_well_formed());

    let mut tampered = busy_engine();
    tampered.accounts[1].amount = -1;
    tampered.total_staked -= 40_000 * XLM + 1;
    assert!(!tampered.is_well_formed());

    let mut tampered = busy_engine();
    let copy = tampered.accounts[0];
    tampered.accounts.push(copy);
    tampered.total_staked += copy.amount;
    assert!(!tampered.is_well_formed());

    let mut tampered = busy_engine();
    tampered.proposals[2].id = 7;
    assert!(!tampered.is_well_formed());

    let mut tampered = busy_engine();
    tampered.proposals[4].votes_against = -1;
    assert!(!tampered.is_well_formed());

    let mut tampered = busy_engine();
    tampered.proposals[0].deposit = 1;
    assert!(!tampered.is_well_formed());

    // A settled deposit that is booked as locked again unbalances the total.
    let mut tampered = busy_engine();
    tampered.proposals[3].status = ProposalStatus::Active;
    assert!(!tampered.is_well_formed());

    let mut tampered = busy_engine();
    let ballot = tampered.ballots[0];
    tampered.ballots.push(ballot);
    assert!(!tampered.is_well_formed());

    let mut tampered = busy_engine();
    let oracle = tampered.config.oracles[0];
    tampered.config.oracles.push(oracle);
    assert!(!tampered.is_well_formed());
    assert!(!tampered.config.is_well_formed());

    let mut tampered = busy_engine();
    let record = tampered.config.records[0];
    tampered.config.records.push(record);
    assert!(!tampered.is_well_formed());

    // Sums that cannot be represented are not well formed either.
    let mut tampered = OracleGovernance::new();
    tampered.deposit_stake(addr(1), i128::MAX).unwrap();
    tampered.accounts.push(stellar_swipe::oracle::ledger::StakeAccount { address: addr(2), amount: 1 });
    assert!(!tampered.is_well_formed());
}
