//! The leaderboard of signal providers, ranked by success rate or by volume.

use vstd::prelude::*;
use crate::address::Address;
use crate::address_map::AddressMap;
use crate::signal_registry::types::ProviderPerformance;

verus! {

/// Fewest signals with which a provider appears on the leaderboard.
pub const MIN_SIGNALS_QUALIFICATION: u32 = 5;

/// Number of providers returned when the caller asks for none in particular.
pub const DEFAULT_LEADERBOARD_LIMIT: u32 = 10;

/// Largest number of providers that can be asked for.
pub const MAX_LEADERBOARD_LIMIT: u32 = 50;

/// What providers are ranked by.
#[derive(Clone, Copy, Debug, PartialEq, Eq, Structural)]
pub enum LeaderboardMetric {
    SuccessRate,
    Volume,
    /// Not available yet; the leaderboard is empty.
    Followers,
}

/// One line of the leaderboard.
#[derive(Clone, Copy, Debug)]
pub struct ProviderLeaderboard {
    pub rank: u32,
    pub provider: Address,
    pub success_rate: u32,
    pub total_volume: i128,
    pub total_signals: u32,
}

/// A provider with its track record.
#[derive(Clone, Copy, Debug)]
pub struct RankedProvider {
    pub provider: Address,
    pub stats: ProviderPerformance,
}

/// A provider qualifies with at least five signals and some success.
pub open spec fn qualifies(stats: ProviderPerformance) -> bool {
    stats.total_signals >= MIN_SIGNALS_QUALIFICATION && stats.success_rate > 0
}

/// `a` belongs above `b`: by success rate, then by number of signals; or by
/// volume.
pub open spec fn outranks(by_success_rate: bool, a: ProviderPerformance, b: ProviderPerformance) -> bool {
    if by_success_rate {
        a.success_rate > b.success_rate || (a.success_rate == b.success_rate && a.total_signals
            > b.total_signals)
    } else {
        a.total_volume > b.total_volume
    }
}

/// `a` and `b` share a rank.
pub open spec fn tied(by_success_rate: bool, a: ProviderPerformance, b: ProviderPerformance) -> bool {
    if by_success_rate {
        a.success_rate == b.success_rate && a.total_signals == b.total_signals
    } else {
        a.total_volume == b.total_volume
    }
}

/// `ranking` with `entry` put above exactly the entries at its end that it
/// outranks.
pub open spec fn placed(ranking: Seq<RankedProvider>, entry: RankedProvider, by_success_rate: bool) -> Seq<
    RankedProvider,
>
    decreases ranking.len(),
{
    if ranking.len() > 0 && outranks(by_success_rate, entry.stats, ranking.last().stats) {
        placed(ranking.drop_last(), entry, by_success_rate).push(ranking.last())
    } else {
        ranking.push(entry)
    }
}

/// The entries in ranking order, best first. Entries of which neither
/// outranks the other keep the order they came in.
pub open spec fn ranked(entries: Seq<RankedProvider>, by_success_rate: bool) -> Seq<RankedProvider>
    decreases entries.len(),
{
    if entries.len() == 0 {
        Seq::empty()
    } else {
        placed(ranked(entries.drop_last(), by_success_rate), entries.last(), by_success_rate)
    }
}

/// No entry of `ranking` is outranked by a later one.
pub open spec fn in_ranking_order(ranking: Seq<RankedProvider>, by_success_rate: bool) -> bool {
    forall|i: int, j: int|
        0 <= i < j < ranking.len() ==> !outranks(
            by_success_rate,
            (#[trigger] ranking[j]).stats,
            (#[trigger] ranking[i]).stats,
        )
}

/// The rank of the entry at `i`: one more than the number of entries above
/// it, unless it is tied with the entry just above, whose rank it shares.
pub open spec fn rank_at(ranking: Seq<RankedProvider>, i: int, by_success_rate: bool) -> int
    decreases i,
{
    if i <= 0 {
        1
    } else if tied(by_success_rate, ranking[i - 1].stats, ranking[i].stats) {
        rank_at(ranking, i - 1, by_success_rate)
    } else {
        i + 1
    }
}

/// The leaderboard line of the entry at `i`.
pub open spec fn line_at(ranking: Seq<RankedProvider>, i: int, by_success_rate: bool) -> ProviderLeaderboard {
    ProviderLeaderboard {
        rank: rank_at(ranking, i, by_success_rate) as u32,
        provider: ranking[i].provider,
        success_rate: ranking[i].stats.success_rate,
        total_volume: ranking[i].stats.total_volume,
        total_signals: ranking[i].stats.total_signals,
    }
}

/// The first `limit` lines of the leaderboard for `ranking`.
pub open spec fn board(ranking: Seq<RankedProvider>, limit: u32, by_success_rate: bool) -> Seq<
    ProviderLeaderboard,
> {
    Seq::new(
        if limit <= ranking.len() {
            limit as nat
        } else {
            ranking.len()
        },
        |i: int| line_at(ranking, i, by_success_rate),
    )
}

/// The providers of `stats` that qualify, in the order of the map's keys.
pub open spec fn qualified(keys: Seq<Address>, stats: Map<Address, ProviderPerformance>) -> Seq<
    RankedProvider,
>
    decreases keys.len(),
{
    if keys.len() == 0 {
        Seq::empty()
    } else if stats.dom().contains(keys.last()) && qualifies(stats[keys.last()]) {
        qualified(keys.drop_last(), stats).push(
            RankedProvider { provider: keys.last(), stats: stats[keys.last()] },
        )
    } else {
        qualified(keys.drop_last(), stats)
    }
}

/// The number of lines asked for: 10 for 0, at most 50.
pub open spec fn clamped_limit(limit: u32) -> u32 {
    if limit == 0 {
        DEFAULT_LEADERBOARD_LIMIT
    } else if limit > MAX_LEADERBOARD_LIMIT {
        MAX_LEADERBOARD_LIMIT
    } else {
        limit
    }
}

/// Placing an entry keeps the ranking order, adds one entry and keeps all
/// others.
pub proof fn lemma_placed(ranking: Seq<RankedProvider>, entry: RankedProvider, by_success_rate: bool)
    requires
        in_ranking_order(ranking, by_success_rate),
    ensures
        in_ranking_order(placed(ranking, entry, by_success_rate), by_success_rate),
        placed(ranking, entry, by_success_rate).len() == ranking.len() + 1,
        placed(ranking, entry, by_success_rate).to_multiset() == ranking.to_multiset().insert(entry),
    decreases ranking.len(),
{
    broadcast use vstd::seq_lib::group_to_multiset_ensures;

    let after = placed(ranking, entry, by_success_rate);
    if ranking.len() > 0 && outranks(by_success_rate, entry.stats, ranking.last().stats) {
        let front = ranking.drop_last();
        let inner = placed(front, entry, by_success_rate);
        assert(in_ranking_order(front, by_success_rate)) by {
            assert forall|i: int, j: int| 0 <= i < j < front.len() implies !outranks(
                by_success_rate,
                (#[trigger] front[j]).stats,
                (#[trigger] front[i]).stats,
            ) by {
                assert(front[i] == ranking[i] && front[j] == ranking[j]);
            }
        }
        lemma_placed(front, entry, by_success_rate);
        lemma_placed_members(front, entry, by_success_rate);
        assert(front.push(ranking.last()) =~= ranking);
        assert forall|i: int, j: int| 0 <= i < j < after.len() implies !outranks(
            by_success_rate,
            (#[trigger] after[j]).stats,
            (#[trigger] after[i]).stats,
        ) by {
            if j < inner.len() {
                assert(after[i] == inner[i] && after[j] == inner[j]);
            } else {
                assert(after[j] == ranking.last());
                assert(after[i] == inner[i]);
                if inner[i] == entry {
                } else {
                    let k = choose|k: int| 0 <= k < front.len() && front[k] == inner[i];
                    assert(ranking[k] == front[k]);
                    assert(ranking[ranking.len() - 1] == ranking.last());
                }
            }
        }
        assert(after.to_multiset() =~= ranking.to_multiset().insert(entry));
    } else {
        assert forall|i: int, j: int| 0 <= i < j < after.len() implies !outranks(
            by_success_rate,
            (#[trigger] after[j]).stats,
            (#[trigger] after[i]).stats,
        ) by {
            if j < ranking.len() {
                assert(after[i] == ranking[i] && after[j] == ranking[j]);
            } else {
                assert(after[j] == entry);
                assert(after[i] == ranking[i]);
                if ranking.len() > 0 {
                    assert(ranking[ranking.len() - 1] == ranking.last());
                    if i < ranking.len() - 1 {
                        assert(!outranks(by_success_rate, ranking.last().stats, ranking[i].stats));
                    }
                }
            }
        }
    }
}

/// Every entry of a ranking with `entry` placed is `entry` or was there
/// before.
proof fn lemma_placed_members(ranking: Seq<RankedProvider>, entry: RankedProvider, by_success_rate: bool)
    ensures
        forall|i: int|
            0 <= i < placed(ranking, entry, by_success_rate).len() ==> (#[trigger] placed(
                ranking,
                entry,
                by_success_rate,
            )[i]) == entry || ranking.contains(placed(ranking, entry, by_success_rate)[i]),
    decreases ranking.len(),
{
    let after = placed(ranking, entry, by_success_rate);
    if ranking.len() > 0 && outranks(by_success_rate, entry.stats, ranking.last().stats) {
        let front = ranking.drop_last();
        let inner = placed(front, entry, by_success_rate);
        lemma_placed_members(front, entry, by_success_rate);
        assert forall|i: int| 0 <= i < after.len() implies (#[trigger] after[i]) == entry
            || ranking.contains(after[i]) by {
            if i < inner.len() {
                assert(after[i] == inner[i]);
                if inner[i] != entry {
                    let k = choose|k: int| 0 <= k < front.len() && front[k] == inner[i];
                    assert(ranking[k] == front[k]);
                }
            } else {
                assert(after[i] == ranking[ranking.len() - 1]);
            }
        }
    } else {
        assert forall|i: int| 0 <= i < after.len() implies (#[trigger] after[i]) == entry
            || ranking.contains(after[i]) by {
            if i < ranking.len() {
                assert(after[i] == ranking[i]);
            }
        }
    }
}

/// Ranking sorts: the result is in ranking order and holds exactly the
/// entries it was given.
pub proof fn lemma_ranked(entries: Seq<RankedProvider>, by_success_rate: bool)
    ensures
        in_ranking_order(ranked(entries, by_success_rate), by_success_rate),
        ranked(entries, by_success_rate).len() == entries.len(),
        ranked(entries, by_success_rate).to_multiset() == entries.to_multiset(),
    decreases entries.len(),
{
    broadcast use vstd::seq_lib::group_to_multiset_ensures;

    if entries.len() > 0 {
        lemma_ranked(entries.drop_last(), by_success_rate);
        lemma_placed(ranked(entries.drop_last(), by_success_rate), entries.last(), by_success_rate);
        assert(entries.drop_last().push(entries.last()) =~= entries);
    }
}

/// Placing `entry` is inserting it at `at`, where `entry` outranks every
/// entry from `at` on and not the one before.
proof fn lemma_placed_is_insert(
    ranking: Seq<RankedProvider>,
    entry: RankedProvider,
    by_success_rate: bool,
    at: int,
)
    requires
        0 <= at <= ranking.len(),
        forall|k: int|
            at <= k < ranking.len() ==> outranks(
                by_success_rate,
                entry.stats,
                (#[trigger] ranking[k]).stats,
            ),
        at > 0 ==> !outranks(by_success_rate, entry.stats, ranking[at - 1].stats),
    ensures
        placed(ranking, entry, by_success_rate) == ranking.insert(at, entry),
    decreases ranking.len(),
{
    if at < ranking.len() {
        assert(outranks(by_success_rate, entry.stats, ranking[ranking.len() - 1].stats));
        let front = ranking.drop_last();
        assert forall|k: int| at <= k < front.len() implies outranks(
            by_success_rate,
            entry.stats,
            (#[trigger] front[k]).stats,
        ) by {
            assert(front[k] == ranking[k]);
        }
        lemma_placed_is_insert(front, entry, by_success_rate, at);
        assert(front.insert(at, entry).push(ranking.last()) =~= ranking.insert(at, entry));
    } else {
        assert(ranking.push(entry) =~= ranking.insert(at, entry));
    }
}

/// Whether a provider qualifies for the leaderboard.
pub fn is_qualified(stats: &ProviderPerformance) -> (r: bool)
    ensures
        r == qualifies(*stats),
{
    stats.total_signals >= MIN_SIGNALS_QUALIFICATION && stats.success_rate > 0
}

/// Whether `a` belongs above `b`.
fn ranks_above(by_success_rate: bool, a: &ProviderPerformance, b: &ProviderPerformance) -> (r: bool)
    ensures
        r == outranks(by_success_rate, *a, *b),
{
    if by_success_rate {
        a.success_rate > b.success_rate || (a.success_rate == b.success_rate && a.total_signals
            > b.total_signals)
    } else {
        a.total_volume > b.total_volume
    }
}

/// Puts the entries in ranking order.
fn sort_ranking(entries: &mut Vec<RankedProvider>, by_success_rate: bool)
    ensures
        final(entries)@ == ranked(old(entries)@, by_success_rate),
        in_ranking_order(final(entries)@, by_success_rate),
        final(entries)@.to_multiset() == old(entries)@.to_multiset(),
{
    let n = entries.len();
    let mut ranking: Vec<RankedProvider> = Vec::new();
    let mut i: usize = 0;
    while i < n
        invariant
            n == entries@.len(),
            i <= n,
            ranking@ == ranked(entries@.take(i as int), by_success_rate),
            ranking@.len() == i,
        decreases n - i,
    {
        let entry = entries[i];
        let mut at: usize = ranking.len();
        while at > 0 && ranks_above(by_success_rate, &entry.stats, &ranking[at - 1].stats)
            invariant
                at <= ranking@.len(),
                forall|k: int|
                    at <= k < ranking@.len() ==> outranks(
                        by_success_rate,
                        entry.stats,
                        (#[trigger] ranking@[k]).stats,
                    ),
            decreases at,
        {
            at = at - 1;
        }
        proof {
            lemma_placed_is_insert(ranking@, entry, by_success_rate, at as int);
            assert(entries@.take(i + 1).drop_last() =~= entries@.take(i as int));
        }
        ranking.insert(at, entry);
        i = i + 1;
    }
    proof {
        assert(entries@.take(n as int) =~= entries@);
        lemma_ranked(entries@, by_success_rate);
    }
    *entries = ranking;
}

/// Sorts by success rate, highest first; among equal rates the provider
/// with more signals comes first.
pub fn sort_by_success_rate(qualified: &mut Vec<RankedProvider>)
    ensures
        final(qualified)@ == ranked(old(qualified)@, true),
        in_ranking_order(final(qualified)@, true),
        final(qualified)@.to_multiset() == old(qualified)@.to_multiset(),
{
    sort_ranking(qualified, true);
}

/// Sorts by total volume, highest first.
pub fn sort_by_volume(qualified: &mut Vec<RankedProvider>)
    ensures
        final(qualified)@ == ranked(old(qualified)@, false),
        in_ranking_order(final(qualified)@, false),
        final(qualified)@.to_multiset() == old(qualified)@.to_multiset(),
{
    sort_ranking(qualified, false);
}

/// Builds the first `limit` lines of the leaderboard from a ranking. Tied
/// entries share a rank, and the rank after a tie counts the tied entries.
pub fn assign_ranks_and_build(sorted: &Vec<RankedProvider>, limit: u32, by_success_rate: bool) -> (lines:
    Vec<ProviderLeaderboard>)
    ensures
        lines@ == board(sorted@, limit, by_success_rate),
{
    let mut lines: Vec<ProviderLeaderboard> = Vec::new();
    let take: usize = if (limit as usize) <= sorted.len() {
        limit as usize
    } else {
        sorted.len()
    };
    let mut rank: u32 = 1;
    let mut i: usize = 0;
    while i < take
        invariant
            take <= sorted@.len(),
            take <= limit,
            i <= take,
            lines@.len() == i,
            i < take ==> rank == rank_at(sorted@, i as int, by_success_rate),
            forall|k: int| 0 <= k < i ==> lines@[k] == line_at(sorted@, k, by_success_rate),
        decreases take - i,
    {
        let entry = sorted[i];
        lines.push(
            ProviderLeaderboard {
                rank,
                provider: entry.provider,
                success_rate: entry.stats.success_rate,
                total_volume: entry.stats.total_volume,
                total_signals: entry.stats.total_signals,
            },
        );
        if i + 1 < take {
            let next = sorted[i + 1];
            let tie = if by_success_rate {
                entry.stats.success_rate == next.stats.success_rate && entry.stats.total_signals
                    == next.stats.total_signals
            } else {
                entry.stats.total_volume == next.stats.total_volume
            };
            if !tie {
                rank = (i + 2) as u32;
            }
        }
        i = i + 1;
    }
    assert(lines@ =~= board(sorted@, limit, by_success_rate));
    lines
}

/// The leaderboard for `metric`: the qualified providers in ranking order
/// with their ranks, cut to `limit` lines (10 if `limit` is 0, at most 50).
/// Ranking by followers gives an empty leaderboard.
pub fn get_leaderboard(stats_map: &AddressMap<ProviderPerformance>, metric: LeaderboardMetric, limit: u32) -> (lines:
    Vec<ProviderLeaderboard>)
    requires
        stats_map.wf(),
    ensures
        metric == LeaderboardMetric::Followers ==> lines@.len() == 0,
        metric != LeaderboardMetric::Followers ==> lines@ == board(
            ranked(
                qualified(stats_map.keys@, stats_map@),
                metric == LeaderboardMetric::SuccessRate,
            ),
            clamped_limit(limit),
            metric == LeaderboardMetric::SuccessRate,
        ),
{
    if metric == LeaderboardMetric::Followers {
        return Vec::new();
    }
    let limit = if limit == 0 {
        DEFAULT_LEADERBOARD_LIMIT
    } else if limit > MAX_LEADERBOARD_LIMIT {
        MAX_LEADERBOARD_LIMIT
    } else {
        limit
    };
    let n = stats_map.keys.len();
    let mut entries: Vec<RankedProvider> = Vec::new();
    let mut i: usize = 0;
    while i < n
        invariant
            stats_map.wf(),
            n == stats_map.keys@.len(),
            i <= n,
            entries@ == qualified(stats_map.keys@.take(i as int), stats_map@),
        decreases n - i,
    {
        proof {
            stats_map.lemma_entry(i as int);
            assert(stats_map.keys@.take(i + 1).drop_last() =~= stats_map.keys@.take(i as int));
        }
        let stats = stats_map.values[i];
        if is_qualified(&stats) {
            entries.push(RankedProvider { provider: stats_map.keys[i], stats });
        }
        i = i + 1;
    }
    assert(stats_map.keys@.take(n as int) =~= stats_map.keys@);
    match metric {
        LeaderboardMetric::SuccessRate => {
            sort_by_success_rate(&mut entries);
            assign_ranks_and_build(&entries, limit, true)
        },
        _ => {
            sort_by_volume(&mut entries);
            assign_ranks_and_build(&entries, limit, false)
        },
    }
}

} // verus!
