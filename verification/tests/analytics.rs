use stellar_swipe::address::Address;
use stellar_swipe::signal_registry::analytics::{
    calculate_avg_lifetime, calculate_avg_roi, calculate_follower_growth,
    calculate_global_analytics, calculate_provider_analytics, calculate_win_streak,
    find_best_asset_pair, find_best_time_of_day, get_provider_signals, get_trending_assets,
};
use stellar_swipe::signal_registry::types::{Signal, SignalAction, SignalStatus};

fn generate_address(id: u8) -> Address {
    Address::new([id; 32])
}

fn create_test_signal(
    id: u64,
    provider: &Address,
    asset_pair: &str,
    timestamp: u64,
    executions: u32,
    total_roi: i128,
    status: SignalStatus,
) -> Signal {
    Signal {
        id,
        provider: *provider,
        asset_pair: asset_pair.to_string(),
        action: SignalAction::Buy,
        price: 100,
        rationale: "test".to_string(),
        timestamp,
        expiry: timestamp + 3600,
        status,
        executions,
        total_volume: 1000,
        total_roi,
    }
}

#[test]
fn test_provider_analytics_insufficient_signals() {
    let provider = generate_address(1);
    let mut signals = Vec::new();

    for i in 0..5 {
        signals.push(create_test_signal(i, &provider, "XLM/USDC", 1000, 1, 500, SignalStatus::Successful));
    }

    let result = calculate_provider_analytics(&signals, &provider, 0);
    assert!(result.is_none());
}

#[test]
fn test_provider_analytics_success() {
    let provider = generate_address(1);
    let mut signals = Vec::new();

    for i in 0..15 {
        let roi = if i % 3 == 0 { 500 } else { 300 };
        signals.push(create_test_signal(
            i,
            &provider,
            "XLM/USDC",
            1000 + i * 100,
            1,
            roi,
            SignalStatus::Successful,
        ));
    }

    let result = calculate_provider_analytics(&signals, &provider, 0);
    assert!(result.is_some());

    let analytics = result.unwrap();
    assert_eq!(analytics.total_signals, 15);
    assert!(analytics.avg_roi > 0);
}

#[test]
fn test_best_asset_pair() {
    let provider = generate_address(1);
    let mut signals = Vec::new();

    for i in 0..5 {
        signals.push(create_test_signal(i, &provider, "XLM/USDC", 1000, 1, 1000, SignalStatus::Successful));
    }

    for i in 5..10 {
        signals.push(create_test_signal(i, &provider, "BTC/USDC", 1000, 1, 100, SignalStatus::Successful));
    }

    let provider_signals = get_provider_signals(&signals, &provider);
    let best = find_best_asset_pair(&provider_signals);

    assert_eq!(best, "XLM/USDC");
}

#[test]
fn test_win_streak() {
    let provider = generate_address(1);
    let mut signals_vec = Vec::new();

    for i in 0..3 {
        signals_vec.push(create_test_signal(i, &provider, "XLM/USDC", 1000, 1, 500, SignalStatus::Successful));
    }

    signals_vec.push(create_test_signal(3, &provider, "XLM/USDC", 1000, 1, -500, SignalStatus::Failed));

    for i in 4..9 {
        signals_vec.push(create_test_signal(i, &provider, "XLM/USDC", 1000, 1, 500, SignalStatus::Successful));
    }

    let streak = calculate_win_streak(&signals_vec);
    assert_eq!(streak, 5);
}

#[test]
fn test_trending_assets() {
    let now = 10000;

    let provider = generate_address(1);
    let mut signals = Vec::new();

    for i in 0..10 {
        signals.push(create_test_signal(i, &provider, "XLM/USDC", 9500, 1, 500, SignalStatus::Active));
    }

    for i in 10..15 {
        signals.push(create_test_signal(i, &provider, "BTC/USDC", 9500, 1, 500, SignalStatus::Active));
    }

    for i in 15..20 {
        signals.push(create_test_signal(i, &provider, "ETH/USDC", 1000, 1, 500, SignalStatus::Active));
    }

    let trending = get_trending_assets(&signals, 24, now);

    assert!(trending.len() > 0);
    let top = &trending[0];
    assert_eq!(top.0, "XLM/USDC");
    assert_eq!(top.1, 10);
}

#[test]
fn test_global_analytics() {
    let now = 100000;

    let provider = generate_address(1);
    let mut signals = Vec::new();

    for i in 0..5 {
        signals.push(create_test_signal(i, &provider, "XLM/USDC", 99000, 1, 500, SignalStatus::Successful));
    }

    for i in 5..8 {
        signals.push(create_test_signal(i, &provider, "BTC/USDC", 99000, 1, -500, SignalStatus::Failed));
    }

    let analytics = calculate_global_analytics(&signals, now);

    assert_eq!(analytics.total_signals_24h, 8);
    assert!(analytics.avg_success_rate > 0);
    assert!(analytics.total_volume_24h > 0);
}

#[test]
fn test_avg_roi_calculation() {
    let provider = generate_address(1);
    let mut signals_vec = Vec::new();

    signals_vec.push(create_test_signal(0, &provider, "XLM/USDC", 1000, 2, 1000, SignalStatus::Successful));
    signals_vec.push(create_test_signal(1, &provider, "XLM/USDC", 1000, 1, 300, SignalStatus::Successful));

    let avg = calculate_avg_roi(&signals_vec);
    assert_eq!(avg, 400);
}

#[test]
fn test_best_time_of_day() {
    let provider = generate_address(1);
    let mut signals_vec = Vec::new();

    signals_vec.push(create_test_signal(0, &provider, "XLM/USDC", 14 * 3600, 1, 1000, SignalStatus::Successful));
    signals_vec.push(create_test_signal(1, &provider, "XLM/USDC", 14 * 3600 + 100, 1, 900, SignalStatus::Successful));

    signals_vec.push(create_test_signal(2, &provider, "XLM/USDC", 10 * 3600, 1, 100, SignalStatus::Successful));

    let best_hour = find_best_time_of_day(&signals_vec);
    assert_eq!(best_hour, 14);
}

#[test]
fn test_zero_executions_handling() {
    let provider = generate_address(1);
    let mut signals_vec = Vec::new();

    signals_vec.push(create_test_signal(0, &provider, "XLM/USDC", 1000, 0, 0, SignalStatus::Active));

    let avg = calculate_avg_roi(&signals_vec);
    assert_eq!(avg, 0);
}

// ----- exact values -----

fn series(entries: &[(&str, u64, u32, i128, SignalStatus)]) -> Vec<Signal> {
    let provider = generate_address(1);
    entries
        .iter()
        .enumerate()
        .map(|(i, (pair, at, executions, roi, status))| {
            create_test_signal(i as u64, &provider, pair, *at, *executions, *roi, *status)
        })
        .collect()
}

#[test]
fn averages_round_toward_zero() {
    let signals = series(&[
        ("A/B", 0, 2, -7, SignalStatus::Active),
        ("A/B", 0, 0, 1_000_000, SignalStatus::Active),
        ("A/B", 0, 3, 10, SignalStatus::Active),
    ]);
    // -7 / 2 = -3 and 10 / 3 = 3; the untraded signal does not count.
    assert_eq!(calculate_avg_roi(&signals), 0);
    let signals = series(&[("A/B", 0, 1, -7, SignalStatus::Active), ("A/B", 0, 1, 2, SignalStatus::Active)]);
    // (-7 + 2) / 2 = -2.5, toward zero.
    assert_eq!(calculate_avg_roi(&signals), -2);
    assert_eq!(calculate_avg_roi(&Vec::new()), 0);
    let extreme = series(&[
        ("A/B", 0, 1, i128::MAX, SignalStatus::Active),
        ("A/B", 0, 1, i128::MAX, SignalStatus::Active),
    ]);
    assert_eq!(calculate_avg_roi(&extreme), i128::MAX / 2);
}

#[test]
fn lifetimes() {
    let mut signals = series(&[("A/B", 100, 1, 0, SignalStatus::Active), ("A/B", 200, 1, 0, SignalStatus::Active)]);
    assert_eq!(calculate_avg_lifetime(&signals), 3600);
    signals[0].expiry = 50;
    assert_eq!(calculate_avg_lifetime(&signals), 1800);
    signals[1].expiry = u64::MAX;
    signals[0].expiry = u64::MAX;
    signals[0].timestamp = 0;
    assert_eq!(calculate_avg_lifetime(&signals), u64::MAX / 2);
    assert_eq!(calculate_avg_lifetime(&Vec::new()), 0);
    assert_eq!(calculate_follower_growth(0), 0);
    assert_eq!(calculate_follower_growth(u32::MAX), u32::MAX as i128);
}

#[test]
fn streaks_skip_unsettled_signals() {
    let (active, expired, failed, successful) = (
        SignalStatus::Active,
        SignalStatus::Expired,
        SignalStatus::Failed,
        SignalStatus::Successful,
    );
    let of = |statuses: &[SignalStatus]| {
        let entries: Vec<(&str, u64, u32, i128, SignalStatus)> =
            statuses.iter().map(|s| ("A/B", 0, 1, 0, *s)).collect();
        calculate_win_streak(&series(&entries))
    };
    assert_eq!(of(&[]), 0);
    assert_eq!(of(&[failed, active, expired]), 0);
    assert_eq!(of(&[successful]), 1);
    assert_eq!(of(&[successful, active, successful, expired, successful]), 3);
    assert_eq!(of(&[successful, successful, failed, successful]), 2);
    assert_eq!(of(&[successful, failed, successful, successful, active, successful, failed]), 3);
}

#[test]
fn best_pair_by_sum_then_by_name() {
    let signals = series(&[
        ("M/USD", 0, 1, 300, SignalStatus::Active),
        ("Z/USD", 0, 1, 500, SignalStatus::Active),
        ("A/USD", 0, 2, 1000, SignalStatus::Active),
        ("M/USD", 0, 1, 200, SignalStatus::Active),
        ("Q/USD", 0, 0, 999_999, SignalStatus::Active),
    ]);
    // Sums: M 500, Z 500, A 500; the untraded pair does not take part.
    assert_eq!(find_best_asset_pair(&signals), "A/USD");
    let losing = series(&[("B/USD", 0, 1, -5, SignalStatus::Active), ("A/USD", 0, 1, -9, SignalStatus::Active)]);
    assert_eq!(find_best_asset_pair(&losing), "B/USD");
    assert_eq!(find_best_asset_pair(&Vec::new()), "");
    let untraded = series(&[("A/USD", 0, 0, 100, SignalStatus::Active)]);
    assert_eq!(find_best_asset_pair(&untraded), "");
    // A sum at the lowest number never wins.
    let lowest = series(&[("A/USD", 0, 1, i128::MIN, SignalStatus::Active)]);
    assert_eq!(find_best_asset_pair(&lowest), "");
}

#[test]
fn best_hour_by_mean_then_earliest() {
    let signals = series(&[
        ("A/B", 5 * 3600 + 10, 1, 100, SignalStatus::Active),
        ("A/B", 86_400 + 5 * 3600, 1, 300, SignalStatus::Active),
        ("A/B", 3 * 3600 + 3599, 1, 200, SignalStatus::Active),
        ("A/B", 23 * 3600, 1, 200, SignalStatus::Active),
        ("A/B", 7 * 3600, 0, 5_000, SignalStatus::Active),
    ]);
    // Hours 3, 5 and 23 all have mean 200; the earliest wins.
    assert_eq!(find_best_time_of_day(&signals), 3);
    assert_eq!(find_best_time_of_day(&Vec::new()), 0);
    let late = series(&[("A/B", 86_399, 1, -1, SignalStatus::Active)]);
    assert_eq!(find_best_time_of_day(&late), 23);
    let lowest = series(&[("A/B", 3600, 1, i128::MIN, SignalStatus::Active)]);
    assert_eq!(find_best_time_of_day(&lowest), 0);
}

#[test]
fn trending_is_ordered_and_cut_to_ten() {
    let names = ["K", "C", "A", "L", "B", "D", "E", "F", "G", "H", "I", "J"];
    let mut entries: Vec<(&str, u64, u32, i128, SignalStatus)> = Vec::new();
    for (i, name) in names.iter().enumerate() {
        // A, B, C get three signals, D two, the others one each.
        let count = match *name {
            "A" | "B" | "C" => 3,
            "D" => 2,
            _ => 1,
        };
        for _ in 0..count {
            entries.push((name, 5_000 + i as u64, 0, 0, SignalStatus::Active));
        }
    }
    entries.push(("OLD", 10, 0, 0, SignalStatus::Active));
    let signals = series(&entries);
    let trending = get_trending_assets(&signals, 1, 5_000 + 3600);
    let listed: Vec<(&str, u32)> = trending.iter().map(|(pair, n)| (pair.as_str(), *n)).collect();
    assert_eq!(
        listed,
        vec![("A", 3), ("B", 3), ("C", 3), ("D", 2), ("E", 1), ("F", 1), ("G", 1), ("H", 1), ("I", 1), ("J", 1)]
    );
    // The window's first second is inside.
    let all = get_trending_assets(&signals, 2, 10 + 7200);
    assert_eq!(all.len(), 10);
    let none = get_trending_assets(&signals, 0, 1_000_000);
    assert!(none.is_empty());
    // A clock before the end of the first window sees everything.
    let early = get_trending_assets(&series(&[("A", 0, 0, 0, SignalStatus::Active)]), 24, 5);
    assert_eq!(early, vec![("A".to_string(), 1)]);
}

#[test]
fn global_figures_exactly() {
    let mut signals = series(&[
        ("X/Y", 99_000, 1, 500, SignalStatus::Successful),
        ("X/Y", 99_000, 1, 500, SignalStatus::Successful),
        ("B/Y", 99_000, 1, -500, SignalStatus::Failed),
        ("OLD", 1_000, 1, 500, SignalStatus::Successful),
        ("X/Y", 13_600, 1, 0, SignalStatus::Active),
    ]);
    signals[0].total_volume = 7;
    let analytics = calculate_global_analytics(&signals, 100_000);
    assert_eq!(analytics.total_signals_24h, 4);
    assert_eq!(analytics.total_volume_24h, 3_007);
    // Three of four settled signals were successful, whenever they were made.
    assert_eq!(analytics.avg_success_rate, 7_500);
    assert_eq!(
        analytics.most_traded_pairs,
        vec![("X/Y".to_string(), 3), ("B/Y".to_string(), 1)]
    );
    let empty = calculate_global_analytics(&Vec::new(), 5);
    assert_eq!((empty.total_signals_24h, empty.avg_success_rate, empty.total_volume_24h), (0, 0, 0));
    assert!(empty.most_traded_pairs.is_empty());
}

#[test]
fn provider_analytics_exactly() {
    let alice = generate_address(1);
    let bob = generate_address(2);
    let mut signals = Vec::new();
    for i in 0..10u64 {
        let status = if i == 4 { SignalStatus::Failed } else { SignalStatus::Successful };
        let pair = if i < 3 { "BTC/USDC" } else { "XLM/USDC" };
        signals.push(create_test_signal(i, &alice, pair, i * 3600, 1, 100 * i as i128, status));
        signals.push(create_test_signal(100 + i, &bob, "ETH/USDC", 0, 1, 9_999, SignalStatus::Successful));
    }
    signals.pop();
    let analytics = calculate_provider_analytics(&signals, &alice, 42).unwrap();
    assert_eq!(analytics.provider, alice);
    assert_eq!(analytics.total_signals, 10);
    assert_eq!(analytics.avg_roi, 450);
    assert_eq!(analytics.best_asset_pair, "XLM/USDC");
    assert_eq!(analytics.best_time_of_day, 9);
    assert_eq!(analytics.win_streak, 5);
    assert_eq!(analytics.avg_signal_lifetime, 3600);
    assert_eq!(analytics.follower_growth_rate, 42);
    // Bob has nine signals left: one short.
    assert!(calculate_provider_analytics(&signals, &bob, 42).is_none());
    assert_eq!(get_provider_signals(&signals, &bob).len(), 9);
    assert_eq!(get_provider_signals(&signals, &generate_address(3)).len(), 0);
}
