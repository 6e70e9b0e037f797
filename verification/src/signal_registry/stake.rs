//! Provider staking: what a provider has staked, and until when it is locked.

use vstd::prelude::*;
use crate::address::Address;
use crate::address_map::AddressMap;
use crate::signal_registry::error::ContractError;

verus! {

/// Smallest stake with which a provider may submit signals (100 XLM in stroops).
pub const DEFAULT_MINIMUM_STAKE: i128 = 100_000_000;

/// Time for which a stake stays locked after a signal, in seconds (7 days).
pub const UNSTAKE_LOCK_PERIOD: u64 = 604_800;

/// The stake of one provider.
#[derive(Clone, Copy, Debug, PartialEq, Eq, Structural)]
pub struct StakeInfo {
    pub amount: i128,
    pub last_signal_time: u64,
    pub locked_until: u64,
}

/// The stake of a provider without a record.
pub open spec fn no_stake() -> StakeInfo {
    StakeInfo { amount: 0, last_signal_time: 0, locked_until: 0 }
}

/// The stake on record for `provider`, or the empty stake.
pub open spec fn stake_on_record(stakes: Map<Address, StakeInfo>, provider: Address) -> StakeInfo {
    if stakes.dom().contains(provider) {
        stakes[provider]
    } else {
        no_stake()
    }
}

/// What unstaking yields at time `now`: the whole amount, unless there is no
/// record, the stake is still locked, or nothing is staked.
pub open spec fn unstake_result(stakes: Map<Address, StakeInfo>, provider: Address, now: u64) -> Result<
    i128,
    ContractError,
> {
    if !stakes.dom().contains(provider) {
        Err(ContractError::NoStakeFound)
    } else if now < stakes[provider].locked_until {
        Err(ContractError::StakeLocked)
    } else if stakes[provider].amount <= 0 {
        Err(ContractError::NoStakeFound)
    } else {
        Ok(stakes[provider].amount)
    }
}

/// Whether the stake on record for `provider` reaches `minimum`.
pub open spec fn verify_result(stakes: Map<Address, StakeInfo>, provider: Address, minimum: i128) -> Result<
    (),
    ContractError,
> {
    if !stakes.dom().contains(provider) {
        Err(ContractError::NoStakeFound)
    } else if stakes[provider].amount < minimum {
        Err(ContractError::InsufficientStake)
    } else {
        Ok(())
    }
}

/// Whether `amount` can be added to the stake of `provider`: it is positive
/// and the sum can be represented.
pub open spec fn stake_accepted(stakes: Map<Address, StakeInfo>, provider: Address, amount: i128) -> bool {
    amount > 0 && stake_on_record(stakes, provider).amount + amount <= i128::MAX
}

/// Adds `amount` to the stake of `provider`, starting a record if there is
/// none. Fails with `InvalidStakeAmount`, changing nothing, when `amount` is
/// not positive or the stake cannot hold it.
pub fn stake(storage: &mut AddressMap<StakeInfo>, provider: &Address, amount: i128) -> (r: Result<
    (),
    ContractError,
>)
    requires
        old(storage).wf(),
    ensures
        final(storage).wf(),
        r is Ok <==> stake_accepted(old(storage)@, *provider, amount),
        r is Err ==> r == Err::<(), ContractError>(ContractError::InvalidStakeAmount)
            && final(storage)@ == old(storage)@,
        r is Ok ==> final(storage)@ == old(storage)@.insert(
            *provider,
            StakeInfo {
                amount: (stake_on_record(old(storage)@, *provider).amount + amount) as i128,
                ..stake_on_record(old(storage)@, *provider)
            },
        ),
{
    if amount <= 0 {
        return Err(ContractError::InvalidStakeAmount);
    }
    let info = get_stake(storage, provider);
    let raised = match info.amount.checked_add(amount) {
        Some(raised) => raised,
        None => {
            return Err(ContractError::InvalidStakeAmount);
        },
    };
    storage.set(*provider, StakeInfo { amount: raised, ..info });
    Ok(())
}

/// Takes the whole stake of `provider` out at time `now` and returns it.
///
/// Fails, changing nothing, with `NoStakeFound` when there is no record or
/// nothing is staked, and with `StakeLocked` before the lock has run out.
pub fn unstake(storage: &mut AddressMap<StakeInfo>, provider: &Address, now: u64) -> (r: Result<
    i128,
    ContractError,
>)
    requires
        old(storage).wf(),
    ensures
        final(storage).wf(),
        r == unstake_result(old(storage)@, *provider, now),
        r is Err ==> final(storage)@ == old(storage)@,
        r is Ok ==> final(storage)@ == old(storage)@.insert(
            *provider,
            StakeInfo { amount: 0, ..old(storage)@[*provider] },
        ),
{
    let info = match storage.get(provider) {
        Some(info) => *info,
        None => {
            return Err(ContractError::NoStakeFound);
        },
    };
    if now < info.locked_until {
        return Err(ContractError::StakeLocked);
    }
    if info.amount <= 0 {
        return Err(ContractError::NoStakeFound);
    }
    storage.set(*provider, StakeInfo { amount: 0, ..info });
    Ok(info.amount)
}

/// Checks that `provider` has at least `minimum` staked.
///
/// Fails with `NoStakeFound` when there is no record and with
/// `InsufficientStake` when the stake is below `minimum`.
pub fn verify_stake(storage: &AddressMap<StakeInfo>, provider: &Address, minimum: i128) -> (r:
    Result<(), ContractError>)
    requires
        storage.wf(),
    ensures
        r == verify_result(storage@, *provider, minimum),
{
    match storage.get(provider) {
        Some(info) => {
            if info.amount < minimum {
                Err(ContractError::InsufficientStake)
            } else {
                Ok(())
            }
        },
        None => Err(ContractError::NoStakeFound),
    }
}

/// Checks that `provider` has a stake on record.
pub fn can_submit_signal(storage: &AddressMap<StakeInfo>, provider: &Address) -> (r: Result<
    (),
    ContractError,
>)
    requires
        storage.wf(),
    ensures
        r is Ok <==> storage@.dom().contains(*provider),
        r is Err ==> r == Err::<(), ContractError>(ContractError::NoStakeFound),
{
    match storage.get(provider) {
        Some(_) => Ok(()),
        None => Err(ContractError::NoStakeFound),
    }
}

/// Notes that `provider` submitted a signal at `now`, which locks the stake
/// for the lock period. Fails with `NoStakeFound`, changing nothing, when
/// there is no record.
pub fn update_last_signal(storage: &mut AddressMap<StakeInfo>, provider: &Address, now: u64) -> (r:
    Result<(), ContractError>)
    requires
        old(storage).wf(),
        now + UNSTAKE_LOCK_PERIOD <= u64::MAX,
    ensures
        final(storage).wf(),
        r is Ok <==> old(storage)@.dom().contains(*provider),
        r is Err ==> r == Err::<(), ContractError>(ContractError::NoStakeFound) && final(storage)@
            == old(storage)@,
        r is Ok ==> final(storage)@ == old(storage)@.insert(
            *provider,
            StakeInfo {
                last_signal_time: now,
                locked_until: (now + UNSTAKE_LOCK_PERIOD) as u64,
                ..old(storage)@[*provider]
            },
        ),
{
    let info = match storage.get(provider) {
        Some(info) => *info,
        None => {
            return Err(ContractError::NoStakeFound);
        },
    };
    storage.set(
        *provider,
        StakeInfo { last_signal_time: now, locked_until: now + UNSTAKE_LOCK_PERIOD, ..info },
    );
    Ok(())
}

/// The stake on record for `provider`, or the empty stake.
pub fn get_stake(storage: &AddressMap<StakeInfo>, provider: &Address) -> (info: StakeInfo)
    requires
        storage.wf(),
    ensures
        info == stake_on_record(storage@, *provider),
{
    match storage.get(provider) {
        Some(info) => *info,
        None => StakeInfo { amount: 0, last_signal_time: 0, locked_until: 0 },
    }
}

} // verus!
