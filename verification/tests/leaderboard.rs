use stellar_swipe::address::Address;
use stellar_swipe::address_map::AddressMap;
use stellar_swipe::signal_registry::leaderboard::{
    assign_ranks_and_build, get_leaderboard, is_qualified, sort_by_success_rate, sort_by_volume,
    LeaderboardMetric, RankedProvider,
};
use stellar_swipe::signal_registry::types::ProviderPerformance;

fn provider(id: u8) -> Address {
    Address::new([id; 32])
}

/// The record of a provider of whose `total` settled signals `won` were
/// successful, each traded once with the given volume.
fn record(total: u32, won: u32, volume_per_trade: i128) -> ProviderPerformance {
    ProviderPerformance {
        total_signals: total,
        successful_signals: won,
        failed_signals: total - won,
        success_rate: if total == 0 { 0 } else { won * 10_000 / total },
        avg_return: 0,
        total_volume: volume_per_trade * total as i128,
    }
}

fn stats_of(entries: &[(Address, ProviderPerformance)]) -> AddressMap<ProviderPerformance> {
    let mut map = AddressMap::new();
    for (who, stats) in entries {
        map.set(*who, *stats);
    }
    map
}

#[test]
fn test_leaderboard_success_rate_ranking() {
    let (provider_a, provider_b, provider_c) = (provider(1), provider(2), provider(3));
    let stats = stats_of(&[
        (provider_a, record(5, 5, 1_000)),
        (provider_b, record(5, 4, 1_000)),
        (provider_c, record(5, 3, 1_000)),
    ]);

    let board = get_leaderboard(&stats, LeaderboardMetric::SuccessRate, 5);
    assert_eq!(board.len(), 3);

    let first = board[0];
    assert_eq!(first.provider, provider_a);
    assert_eq!(first.rank, 1);
    assert_eq!(first.success_rate, 10000);

    let second = board[1];
    assert_eq!(second.provider, provider_b);
    assert_eq!(second.rank, 2);
    assert_eq!(second.success_rate, 8000);

    let third = board[2];
    assert_eq!(third.provider, provider_c);
    assert_eq!(third.rank, 3);
    assert_eq!(third.success_rate, 6000);
}

#[test]
fn test_leaderboard_volume_ranking() {
    let (provider_high, provider_low) = (provider(1), provider(2));
    let stats = stats_of(&[(provider_high, record(5, 5, 5000)), (provider_low, record(5, 5, 1000))]);

    let board = get_leaderboard(&stats, LeaderboardMetric::Volume, 10);
    assert_eq!(board.len(), 2);
    let first = board[0];
    assert_eq!(first.provider, provider_high);
    assert_eq!(first.total_volume, 25_000);
}

#[test]
fn test_leaderboard_min_qualification() {
    let mut stats = stats_of(&[(provider(1), record(3, 3, 1_000))]);
    let board = get_leaderboard(&stats, LeaderboardMetric::SuccessRate, 10);
    assert_eq!(board.len(), 0);

    stats.set(provider(2), record(5, 0, 1_000));
    let board = get_leaderboard(&stats, LeaderboardMetric::SuccessRate, 10);
    assert_eq!(board.len(), 0);
}

#[test]
fn test_leaderboard_followers_empty() {
    let stats = stats_of(&[]);
    let board = get_leaderboard(&stats, LeaderboardMetric::Followers, 10);
    assert_eq!(board.len(), 0);
}

#[test]
fn test_leaderboard_tie_breaking_and_rerank() {
    let (provider_a, provider_b) = (provider(1), provider(2));
    let stats = stats_of(&[(provider_a, record(6, 6, 1_000)), (provider_b, record(5, 5, 1_000))]);

    let board = get_leaderboard(&stats, LeaderboardMetric::SuccessRate, 10);
    assert_eq!(board.len(), 2);
    let first = board[0];
    let second = board[1];
    assert_eq!(first.provider, provider_a);
    assert_eq!(second.provider, provider_b);
    assert_eq!(first.rank, 1);
    assert_eq!(second.rank, 2);
}

#[test]
fn test_leaderboard_limit_clamping() {
    let stats = stats_of(&[(provider(1), record(6, 6, 1_000))]);

    let board = get_leaderboard(&stats, LeaderboardMetric::SuccessRate, 0);
    assert!(board.len() <= 10);

    let board = get_leaderboard(&stats, LeaderboardMetric::SuccessRate, 50);
    assert_eq!(board.len(), 1);
}

#[test]
fn qualification_limits() {
    assert!(is_qualified(&record(5, 1, 0)));
    assert!(!is_qualified(&record(4, 4, 0)));
    assert!(!is_qualified(&record(5, 0, 0)));
    assert!(!is_qualified(&record(0, 0, 0)));
    assert!(is_qualified(&record(100, 100, 0)));
}

#[test]
fn ties_share_a_rank_and_keep_their_order() {
    let entries: Vec<(Address, ProviderPerformance)> = vec![
        (provider(1), record(5, 4, 10)),
        (provider(2), record(10, 10, 30)),
        (provider(3), record(5, 4, 20)),
        (provider(4), record(10, 8, 10)),
        (provider(5), record(5, 5, 6)),
        (provider(6), record(5, 4, 10)),
        (provider(7), record(4, 4, 1_000)),
        (provider(8), record(10, 10, 30)),
    ];
    let stats = stats_of(&entries);

    let board = get_leaderboard(&stats, LeaderboardMetric::SuccessRate, 50);
    let summary: Vec<(u8, u32)> = board.iter().map(|l| (l.provider.bytes[0], l.rank)).collect();
    // 100% with 10 signals twice, then 100% with 5, then 80% with 10
    // signals, then 80% with 5 signals three times.
    assert_eq!(summary, vec![(2, 1), (8, 1), (5, 3), (4, 4), (1, 5), (3, 5), (6, 5)]);
    assert_eq!(board[3].success_rate, 8_000);
    assert_eq!(board[3].total_signals, 10);
    assert_eq!(board[3].total_volume, 100);

    let board = get_leaderboard(&stats, LeaderboardMetric::Volume, 50);
    let summary: Vec<(u8, i128, u32)> =
        board.iter().map(|l| (l.provider.bytes[0], l.total_volume, l.rank)).collect();
    assert_eq!(
        summary,
        vec![(2, 300, 1), (8, 300, 1), (3, 100, 3), (4, 100, 3), (1, 50, 5), (6, 50, 5), (5, 30, 7)]
    );

    // The limit cuts the board but leaves the ranks as they are.
    let board = get_leaderboard(&stats, LeaderboardMetric::Volume, 3);
    let summary: Vec<(u8, u32)> = board.iter().map(|l| (l.provider.bytes[0], l.rank)).collect();
    assert_eq!(summary, vec![(2, 1), (8, 1), (3, 3)]);
}

#[test]
fn limits_are_clamped() {
    let entries: Vec<(Address, ProviderPerformance)> =
        (1..=60u8).map(|i| (provider(i), record(5, 5, i as i128))).collect();
    let stats = stats_of(&entries);
    assert_eq!(get_leaderboard(&stats, LeaderboardMetric::Volume, 0).len(), 10);
    assert_eq!(get_leaderboard(&stats, LeaderboardMetric::Volume, 1).len(), 1);
    assert_eq!(get_leaderboard(&stats, LeaderboardMetric::Volume, 50).len(), 50);
    assert_eq!(get_leaderboard(&stats, LeaderboardMetric::Volume, 51).len(), 50);
    assert_eq!(get_leaderboard(&stats, LeaderboardMetric::Volume, u32::MAX).len(), 50);
    assert_eq!(get_leaderboard(&stats, LeaderboardMetric::Followers, 50).len(), 0);
    let board = get_leaderboard(&stats, LeaderboardMetric::Volume, 2);
    assert_eq!(board[0].provider, provider(60));
    assert_eq!(board[1].provider, provider(59));
    assert_eq!((board[0].rank, board[1].rank), (1, 2));
}

#[test]
fn sorting_and_ranking_directly() {
    let mut entries: Vec<RankedProvider> = [(1u8, 3u32, 5u32, 7i128), (2, 9, 5, 7), (3, 3, 6, 9), (4, 9, 5, 1)]
        .iter()
        .map(|(id, rate, signals, volume)| RankedProvider {
            provider: provider(*id),
            stats: ProviderPerformance {
                total_signals: *signals,
                successful_signals: 0,
                failed_signals: 0,
                success_rate: *rate,
                avg_return: 0,
                total_volume: *volume,
            },
        })
        .collect();
    sort_by_success_rate(&mut entries);
    let order: Vec<u8> = entries.iter().map(|e| e.provider.bytes[0]).collect();
    assert_eq!(order, vec![2, 4, 3, 1]);
    let lines = assign_ranks_and_build(&entries, 10, true);
    let ranks: Vec<u32> = lines.iter().map(|l| l.rank).collect();
    assert_eq!(ranks, vec![1, 1, 3, 4]);
    assert_eq!(assign_ranks_and_build(&entries, 0, true).len(), 0);
    assert_eq!(assign_ranks_and_build(&entries, 2, true).len(), 2);

    sort_by_volume(&mut entries);
    let order: Vec<u8> = entries.iter().map(|e| e.provider.bytes[0]).collect();
    assert_eq!(order, vec![3, 2, 1, 4]);
    let lines = assign_ranks_and_build(&entries, 10, false);
    let ranks: Vec<u32> = lines.iter().map(|l| l.rank).collect();
    assert_eq!(ranks, vec![1, 2, 2, 4]);

    let mut none: Vec<RankedProvider> = Vec::new();
    sort_by_volume(&mut none);
    assert!(none.is_empty());
}
