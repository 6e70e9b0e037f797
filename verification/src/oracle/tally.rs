//! Quorum and approval arithmetic over vote tallies, in basis points.

use vstd::prelude::*;
use crate::oracle::proposal::{
    threshold_bps, OracleProposal, ProposalType, BPS_DENOMINATOR, QUORUM_BPS,
};

verus! {

/// Quorum is reached when there is stake at all and the votes cast make up at
/// least `QUORUM_BPS` basis points of it.
pub open spec fn quorum_reached(votes_for: int, votes_against: int, total_staked: int) -> bool {
    total_staked > 0 && (votes_for + votes_against) * BPS_DENOMINATOR >= QUORUM_BPS * total_staked
}

/// A proposal is approved when votes were cast and the votes in favour make up
/// at least the kind's threshold of them.
pub open spec fn approved(votes_for: int, votes_against: int, kind: ProposalType) -> bool {
    votes_for + votes_against > 0 && votes_for * BPS_DENOMINATOR >= threshold_bps(kind) * (votes_for
        + votes_against)
}

/// A proposal can be executed when it has both quorum and approval.
pub open spec fn executable(proposal: OracleProposal, total_staked: int) -> bool {
    quorum_reached(proposal.votes_for as int, proposal.votes_against as int, total_staked)
        && approved(proposal.votes_for as int, proposal.votes_against as int, proposal.proposal_type)
}

/// Whether `x * p >= y * q` for non-negative `x`, `y` and small positive
/// `p`, `q`, computed without forming either product.
fn scaled_at_least(x: u128, p: u128, y: u128, q: u128) -> (r: bool)
    requires
        0 < p <= 10_000,
        0 < q <= 10_000,
    ensures
        r == (x * p >= y * q),
{
    let xq: u128 = x / q;
    let xr: u128 = x % q;
    let yq: u128 = y / p;
    let yr: u128 = y % p;
    proof {
        assert(x == q * xq + xr && 0 <= xr < q) by (nonlinear_arith)
            requires
                xq == x / q,
                xr == x % q,
                q > 0,
        ;
        assert(y == p * yq + yr && 0 <= yr < p) by (nonlinear_arith)
            requires
                yq == y / p,
                yr == y % p,
                p > 0,
        ;
        assert((x * p >= y * q) == if xq > yq {
            true
        } else if xq < yq {
            false
        } else {
            p * xr >= q * yr
        }) by (nonlinear_arith)
            requires
                x == q * xq + xr,
                y == p * yq + yr,
                0 <= xr < q,
                0 <= yr < p,
                0 < p,
                0 < q,
        ;
        assert(p * xr <= 10_000 * 10_000 && q * yr <= 10_000 * 10_000) by (nonlinear_arith)
            requires
                0 <= xr < q,
                0 <= yr < p,
                p <= 10_000,
                q <= 10_000,
        ;
    }
    if xq > yq {
        true
    } else if xq < yq {
        false
    } else {
        p * xr >= q * yr
    }
}

/// Decides whether the votes cast reach quorum against `total_staked`.
pub fn has_quorum(votes_for: i128, votes_against: i128, total_staked: i128) -> (r: bool)
    ensures
        r == quorum_reached(votes_for as int, votes_against as int, total_staked as int),
{
    if total_staked <= 0 {
        return false;
    }
    if votes_for < 0 && votes_against < 0 {
        return false;
    }
    if votes_for >= 0 && votes_against >= 0 {
        let cast: u128 = votes_for as u128 + votes_against as u128;
        return scaled_at_least(cast, 10_000, total_staked as u128, 1_000);
    }
    let cast: i128 = votes_for + votes_against;
    if cast <= 0 {
        return false;
    }
    scaled_at_least(cast as u128, 10_000, total_staked as u128, 1_000)
}

/// Decides whether the votes in favour reach the approval threshold of `kind`.
pub fn has_approval(votes_for: i128, votes_against: i128, kind: ProposalType) -> (r: bool)
    ensures
        r == approved(votes_for as int, votes_against as int, kind),
{
    let threshold: i128 = kind.approval_threshold();
    if votes_for < 0 {
        // Either no votes were cast on balance, or the share in favour is negative.
        assert(!approved(votes_for as int, votes_against as int, kind)) by (nonlinear_arith)
            requires
                votes_for < 0,
                threshold_bps(kind) == 6_600 || threshold_bps(kind) == 8_000,
                BPS_DENOMINATOR == 10_000,
        ;
        return false;
    }
    if votes_against < 0 {
        let cast: i128 = votes_for + votes_against;
        assert(cast > 0 ==> votes_for * 10_000 >= threshold_bps(kind) * cast) by (nonlinear_arith)
            requires
                cast == votes_for + votes_against,
                votes_for >= 0,
                votes_against < 0,
                threshold_bps(kind) == 6_600 || threshold_bps(kind) == 8_000,
        ;
        return cast > 0;
    }
    if votes_for == 0 && votes_against == 0 {
        return false;
    }
    // votes_for * 10_000 >= t * (votes_for + votes_against)
    //   <==> votes_for * (10_000 - t) >= votes_against * t
    let rest: i128 = 10_000 - threshold;
    assert((votes_for * 10_000 >= threshold * (votes_for + votes_against)) == (votes_for * rest
        >= votes_against * threshold)) by (nonlinear_arith)
        requires
            rest == 10_000 - threshold,
    ;
    scaled_at_least(votes_for as u128, rest as u128, votes_against as u128, threshold as u128)
}

/// Whether enough of the total stake has voted on `proposal`.
pub fn is_quorum_reached(proposal: &OracleProposal, total_staked: i128) -> (r: bool)
    ensures
        r == quorum_reached(
            proposal.votes_for as int,
            proposal.votes_against as int,
            total_staked as int,
        ),
{
    has_quorum(proposal.votes_for, proposal.votes_against, total_staked)
}

/// Whether enough of the votes on `proposal` are in favour.
pub fn is_approved(proposal: &OracleProposal) -> (r: bool)
    ensures
        r == approved(
            proposal.votes_for as int,
            proposal.votes_against as int,
            proposal.proposal_type,
        ),
{
    has_approval(proposal.votes_for, proposal.votes_against, proposal.proposal_type)
}

} // verus!
