use stellar_swipe::address::Address;
use stellar_swipe::address_map::AddressMap;
use stellar_swipe::signal_registry::error::ContractError;
use stellar_swipe::signal_registry::stake::{
    can_submit_signal, get_stake, stake, unstake, update_last_signal, verify_stake, StakeInfo,
    DEFAULT_MINIMUM_STAKE, UNSTAKE_LOCK_PERIOD,
};

fn sample_provider(id: u8) -> Address {
    Address::new([id; 32])
}

#[test]
fn test_stake_and_unstake_flow() {
    let provider = sample_provider(1);
    let mut storage: AddressMap<StakeInfo> = AddressMap::new();

    stake(&mut storage, &provider, 100_000_000).unwrap();

    let info = get_stake(&storage, &provider);
    assert_eq!(info.amount, 100_000_000);

    let now = 0;
    update_last_signal(&mut storage, &provider, now).unwrap();

    let res = unstake(&mut storage, &provider, now);
    assert!(res.is_err());

    // Seven days pass.
    let later = now + UNSTAKE_LOCK_PERIOD;
    let mut info = *storage.get(&provider).unwrap();
    info.locked_until = later;
    storage.set(provider, info);

    let withdrawn = unstake(&mut storage, &provider, later).unwrap();
    assert_eq!(withdrawn, 100_000_000);
}

#[test]
fn test_verify_minimum_stake() {
    let mut storage: AddressMap<StakeInfo> = AddressMap::new();
    let provider = sample_provider(2);

    stake(&mut storage, &provider, 50_000_000).unwrap();
    let res = verify_stake(&storage, &provider, 100_000_000);
    assert!(res.is_err());

    stake(&mut storage, &provider, 60_000_000).unwrap();
    verify_stake(&storage, &provider, 100_000_000).unwrap();
}

#[test]
fn stake_errors_and_exact_records() {
    let mut storage: AddressMap<StakeInfo> = AddressMap::new();
    let (a, b) = (sample_provider(1), sample_provider(2));
    assert_eq!(get_stake(&storage, &a), StakeInfo { amount: 0, last_signal_time: 0, locked_until: 0 });
    assert_eq!(stake(&mut storage, &a, 0), Err(ContractError::InvalidStakeAmount));
    assert_eq!(stake(&mut storage, &a, -7), Err(ContractError::InvalidStakeAmount));
    assert_eq!(storage.len(), 0);
    assert_eq!(can_submit_signal(&storage, &a), Err(ContractError::NoStakeFound));
    assert_eq!(verify_stake(&storage, &a, 0), Err(ContractError::NoStakeFound));
    assert_eq!(unstake(&mut storage, &a, 0), Err(ContractError::NoStakeFound));
    assert_eq!(update_last_signal(&mut storage, &a, 5), Err(ContractError::NoStakeFound));

    assert_eq!(stake(&mut storage, &a, 40), Ok(()));
    assert_eq!(stake(&mut storage, &b, i128::MAX), Ok(()));
    assert_eq!(stake(&mut storage, &b, 1), Err(ContractError::InvalidStakeAmount));
    assert_eq!(get_stake(&storage, &b).amount, i128::MAX);
    assert_eq!(can_submit_signal(&storage, &a), Ok(()));
    assert_eq!(verify_stake(&storage, &a, 40), Ok(()));
    assert_eq!(verify_stake(&storage, &a, 41), Err(ContractError::InsufficientStake));
    assert_eq!(verify_stake(&storage, &a, DEFAULT_MINIMUM_STAKE), Err(ContractError::InsufficientStake));

    assert_eq!(update_last_signal(&mut storage, &a, 1_000), Ok(()));
    assert_eq!(
        get_stake(&storage, &a),
        StakeInfo { amount: 40, last_signal_time: 1_000, locked_until: 1_000 + 604_800 }
    );
    assert_eq!(stake(&mut storage, &a, 2), Ok(()));
    assert_eq!(
        get_stake(&storage, &a),
        StakeInfo { amount: 42, last_signal_time: 1_000, locked_until: 605_800 }
    );
    assert_eq!(unstake(&mut storage, &a, 605_799), Err(ContractError::StakeLocked));
    assert_eq!(get_stake(&storage, &a).amount, 42);
    assert_eq!(unstake(&mut storage, &a, 605_800), Ok(42));
    assert_eq!(
        get_stake(&storage, &a),
        StakeInfo { amount: 0, last_signal_time: 1_000, locked_until: 605_800 }
    );
    // Nothing left to take out.
    assert_eq!(unstake(&mut storage, &a, 605_800), Err(ContractError::NoStakeFound));
    assert_eq!(get_stake(&storage, &b).amount, i128::MAX);
    assert_eq!(storage.len(), 2);
    assert!(storage.contains_key(&a));
    assert!(!storage.contains_key(&sample_provider(3)));
}

#[test]
fn a_map_with_a_key_twice_is_not_well_formed() {
    let mut storage: AddressMap<StakeInfo> = AddressMap::new();
    assert!(storage.is_well_formed());
    stake(&mut storage, &sample_provider(1), 5).unwrap();
    stake(&mut storage, &sample_provider(2), 6).unwrap();
    stake(&mut storage, &sample_provider(1), 7).unwrap();
    assert!(storage.is_well_formed());
    assert_eq!(storage.keys, vec![sample_provider(1), sample_provider(2)]);
    storage.keys.push(sample_provider(2));
    assert!(!storage.is_well_formed());
    storage.values.push(StakeInfo { amount: 0, last_signal_time: 0, locked_until: 0 });
    assert!(!storage.is_well_formed());
    storage.keys[2] = sample_provider(3);
    assert!(storage.is_well_formed());
    assert_eq!(get_stake(&storage, &sample_provider(3)).amount, 0);
    assert_eq!(get_stake(&storage, &sample_provider(1)).amount, 12);
}
