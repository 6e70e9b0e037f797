use stellar_swipe::auto_trade::error::AutoTradeError;
use stellar_swipe::auto_trade::multi_asset::{
    execute_multi_asset_limit_order, execute_multi_asset_market_order, STELLAR_DECIMALS,
    STELLAR_SCALE,
};
use stellar_swipe::auto_trade::sdex::{
    execute_limit_order, execute_market_order, has_sufficient_balance, ExecutionResult,
};
use stellar_swipe::address::Address;
use stellar_swipe::address_map::AddressMap;
use stellar_swipe::auto_trade::storage::{
    authorize_user, get_signal, is_authorized, set_signal, Signal,
};
use std::collections::HashMap;
use stellar_swipe::oracle::staleness::{check_staleness, PriceMetadata, StalenessLevel};

/// The ledger time that the signals below are made at.
const NOW: u64 = 1_000;

fn setup_signal(id: u64) -> Signal {
    Signal { signal_id: id, price: 100, expiry: NOW + 1_000, base_asset: 1 }
}

#[test]
fn market_order_full_fill() {
    let signal = setup_signal(1);
    let res = execute_market_order(&signal, 400, NOW, Some(500)).unwrap();
    assert_eq!(res.executed_amount, 400);
}

#[test]
fn market_order_partial_fill() {
    let signal = setup_signal(2);
    let res = execute_market_order(&signal, 300, NOW, Some(100)).unwrap();
    assert_eq!(res.executed_amount, 100);
}

#[test]
fn limit_order_not_filled() {
    let signal = setup_signal(3);
    let res = execute_limit_order(&signal, 200, NOW, Some(150)).unwrap();
    assert_eq!(res.executed_amount, 0);
}

#[test]
fn expired_signal_rejected() {
    let signal = Signal { signal_id: 4, price: 100, expiry: NOW - 1, base_asset: 1 };
    let err = execute_market_order(&signal, 100, NOW, None).unwrap_err();
    assert_eq!(err, AutoTradeError::SignalExpired);
}

#[test]
fn market_order_edges() {
    let signal = setup_signal(5);
    // Without a book entry the whole amount is filled at the signal's price.
    assert_eq!(
        execute_market_order(&signal, 250, NOW, None),
        Ok(ExecutionResult { executed_amount: 250, executed_price: 100 })
    );
    assert_eq!(
        execute_market_order(&signal, 250, NOW, Some(250)),
        Ok(ExecutionResult { executed_amount: 250, executed_price: 100 })
    );
    assert_eq!(
        execute_market_order(&signal, 250, NOW, Some(0)),
        Err(AutoTradeError::InsufficientLiquidity)
    );
    assert_eq!(
        execute_market_order(&signal, 250, NOW, Some(-3)),
        Err(AutoTradeError::InsufficientLiquidity)
    );
    assert_eq!(execute_market_order(&signal, 0, NOW, None), Err(AutoTradeError::InsufficientLiquidity));
    // The expiry itself is too late; expiry comes before liquidity.
    assert_eq!(
        execute_market_order(&signal, 250, signal.expiry, Some(0)),
        Err(AutoTradeError::SignalExpired)
    );
    assert!(execute_market_order(&signal, 250, signal.expiry - 1, Some(1)).is_ok());
}

#[test]
fn limit_order_edges() {
    let signal = setup_signal(6);
    let filled = ExecutionResult { executed_amount: 200, executed_price: 100 };
    let unfilled = ExecutionResult { executed_amount: 0, executed_price: 0 };
    assert_eq!(execute_limit_order(&signal, 200, NOW, None), Ok(filled));
    assert_eq!(execute_limit_order(&signal, 200, NOW, Some(100)), Ok(filled));
    assert_eq!(execute_limit_order(&signal, 200, NOW, Some(99)), Ok(filled));
    assert_eq!(execute_limit_order(&signal, 200, NOW, Some(101)), Ok(unfilled));
    assert_eq!(
        execute_limit_order(&signal, 200, signal.expiry, Some(99)),
        Err(AutoTradeError::SignalExpired)
    );
}

#[test]
fn balance_check() {
    assert!(has_sufficient_balance(Some(1_000), 1_000));
    assert!(!has_sufficient_balance(Some(999), 1_000));
    assert!(!has_sufficient_balance(None, 1));
    assert!(has_sufficient_balance(None, 0));
    assert!(has_sufficient_balance(None, -1));
}

#[test]
fn multi_asset_orders_need_a_positive_amount() {
    let signal = setup_signal(7);
    assert_eq!(STELLAR_DECIMALS, 7);
    assert_eq!(STELLAR_SCALE, 10_000_000);
    assert_eq!(
        execute_multi_asset_market_order(&signal, 0, NOW, Some(500)),
        Err(AutoTradeError::InvalidAmount)
    );
    assert_eq!(
        execute_multi_asset_market_order(&signal, -1, signal.expiry, Some(500)),
        Err(AutoTradeError::InvalidAmount)
    );
    assert_eq!(
        execute_multi_asset_market_order(&signal, 600, NOW, Some(500)),
        Ok(ExecutionResult { executed_amount: 500, executed_price: 100 })
    );
    assert_eq!(
        execute_multi_asset_limit_order(&signal, 0, NOW, None),
        Err(AutoTradeError::InvalidAmount)
    );
    assert_eq!(
        execute_multi_asset_limit_order(&signal, 600, NOW, Some(100)),
        Ok(ExecutionResult { executed_amount: 600, executed_price: 100 })
    );
    assert_eq!(
        execute_multi_asset_limit_order(&signal, 600, signal.expiry + 5, Some(100)),
        Err(AutoTradeError::SignalExpired)
    );
}

#[test]
fn staleness_levels() {
    let metadata = PriceMetadata {
        last_update: 10_000,
        update_count_24h: 3,
        avg_update_interval: 60,
        staleness_level: StalenessLevel::Fresh,
        is_paused: false,
    };
    let cases: [(u64, StalenessLevel); 10] = [
        (0, StalenessLevel::Fresh),
        (120, StalenessLevel::Fresh),
        (121, StalenessLevel::Aging),
        (300, StalenessLevel::Aging),
        (301, StalenessLevel::Stale),
        (900, StalenessLevel::Stale),
        (901, StalenessLevel::Critical),
        (1_000_000, StalenessLevel::Critical),
        (u64::MAX - 10_000, StalenessLevel::Critical),
        (60, StalenessLevel::Fresh),
    ];
    for (age, expected) in cases {
        assert_eq!(check_staleness(&metadata, 10_000 + age), expected);
    }
    // A clock behind the last update counts as age zero.
    assert_eq!(check_staleness(&metadata, 9_000), StalenessLevel::Fresh);
    assert_eq!(check_staleness(&metadata, 0), StalenessLevel::Fresh);
}

#[test]
fn signals_and_authorisations_are_kept() {
    let mut signals: HashMap<u64, Signal> = HashMap::new();
    assert_eq!(get_signal(&signals, 1), None);
    set_signal(&mut signals, 1, &setup_signal(1));
    set_signal(&mut signals, 7, &setup_signal(7));
    assert_eq!(get_signal(&signals, 1), Some(setup_signal(1)));
    assert_eq!(get_signal(&signals, 7).map(|s| s.signal_id), Some(7));
    assert_eq!(get_signal(&signals, 2), None);
    let replaced = Signal { price: 250, ..setup_signal(1) };
    set_signal(&mut signals, 1, &replaced);
    assert_eq!(get_signal(&signals, 1), Some(replaced));
    assert_eq!(signals.len(), 2);

    let mut authorized: AddressMap<bool> = AddressMap::new();
    let (alice, bob) = (Address::new([1; 32]), Address::new([2; 32]));
    assert!(!is_authorized(&authorized, &alice));
    authorize_user(&mut authorized, &alice);
    authorize_user(&mut authorized, &alice);
    assert!(is_authorized(&authorized, &alice));
    assert!(!is_authorized(&authorized, &bob));
    assert_eq!(authorized.len(), 1);
    authorized.set(alice, false);
    assert!(!is_authorized(&authorized, &alice));
}
