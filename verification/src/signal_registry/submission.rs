//! Submission of trade signals by staked providers.

use vstd::prelude::*;
use crate::address::Address;
use crate::address_map::AddressMap;
use crate::signal_registry::stake::{can_submit_signal, StakeInfo, DEFAULT_MINIMUM_STAKE};
use crate::text::{byte_len, contains_char, text_len};

verus! {

/// Time after a signal during which the same signal is a duplicate, in seconds.
pub const DUPLICATE_WINDOW_SECONDS: u64 = 3600;

/// Lifetime of a signal in seconds (24 hours).
pub const SIGNAL_LIFETIME_SECONDS: u64 = 86_400;

/// Shortest asset pair in bytes.
pub const MIN_ASSET_PAIR_LEN: usize = 3;

/// Longest asset pair in bytes.
pub const MAX_ASSET_PAIR_LEN: usize = 20;

/// Longest rationale in bytes.
pub const MAX_RATIONALE_LEN: usize = 500;

/// What a signal recommends.
#[derive(Clone, Copy, Debug, PartialEq, Eq, Structural)]
pub enum Action {
    Buy,
    Sell,
    Hold,
}

/// A submitted signal.
#[derive(Clone, Debug)]
pub struct Signal {
    pub provider: Address,
    pub asset_pair: String,
    pub action: Action,
    pub price: i128,
    pub rationale: String,
    pub timestamp: u64,
    pub expiry: u64,
}

/// Why a submission was refused.
#[derive(Clone, Copy, Debug, PartialEq, Eq, Structural)]
pub enum Error {
    /// The provider has no stake on record.
    NoStake,
    /// The provider's stake is below the minimum.
    BelowMinimumStake,
    /// The asset pair has no slash or its length is out of range.
    InvalidAssetPair,
    /// The price is not positive.
    InvalidPrice,
    /// The rationale is empty or too long.
    EmptyRationale,
    /// The provider submitted the same signal within the last hour.
    DuplicateSignal,
}

/// An asset pair names two assets around a slash in 3 to 20 bytes.
pub open spec fn asset_pair_valid(asset_pair: Seq<char>) -> bool {
    asset_pair.contains('/') && MIN_ASSET_PAIR_LEN <= byte_len(asset_pair) <= MAX_ASSET_PAIR_LEN
}

/// A rationale is not empty and takes at most 500 bytes.
pub open spec fn rationale_valid(rationale: Seq<char>) -> bool {
    rationale.len() > 0 && byte_len(rationale) <= MAX_RATIONALE_LEN
}

/// `earlier` is the same recommendation by the same provider and less than
/// an hour old at `now`.
pub open spec fn duplicates(
    earlier: Signal,
    provider: Address,
    asset_pair: Seq<char>,
    action: Action,
    price: i128,
    now: u64,
) -> bool {
    earlier.provider == provider && earlier.asset_pair@ == asset_pair && earlier.action == action
        && earlier.price == price && now < earlier.timestamp + DUPLICATE_WINDOW_SECONDS
}

/// Some stored signal duplicates the submission.
pub open spec fn has_duplicate(
    signals: Seq<Signal>,
    provider: Address,
    asset_pair: Seq<char>,
    action: Action,
    price: i128,
    now: u64,
) -> bool {
    exists|i: int|
        0 <= i < signals.len() && duplicates(
            #[trigger] signals[i],
            provider,
            asset_pair,
            action,
            price,
            now,
        )
}

/// What a submission yields: the first reason to refuse it, in the order of
/// the checks, or the identifier of the new signal.
pub open spec fn submission_result(
    signals: Seq<Signal>,
    stakes: Map<Address, StakeInfo>,
    provider: Address,
    asset_pair: Seq<char>,
    action: Action,
    price: i128,
    rationale: Seq<char>,
    now: u64,
) -> Result<u64, Error> {
    if !stakes.dom().contains(provider) {
        Err(Error::NoStake)
    } else if stakes[provider].amount < DEFAULT_MINIMUM_STAKE {
        Err(Error::BelowMinimumStake)
    } else if !asset_pair_valid(asset_pair) {
        Err(Error::InvalidAssetPair)
    } else if price <= 0 {
        Err(Error::InvalidPrice)
    } else if !rationale_valid(rationale) {
        Err(Error::EmptyRationale)
    } else if has_duplicate(signals, provider, asset_pair, action, price, now) {
        Err(Error::DuplicateSignal)
    } else {
        Ok((signals.len() + 1) as u64)
    }
}

/// Whether some stored signal duplicates the submission.
fn find_duplicate(
    storage: &Vec<Signal>,
    provider: &Address,
    asset_pair: &String,
    action: Action,
    price: i128,
    now: u64,
) -> (r: bool)
    ensures
        r == has_duplicate(storage@, *provider, asset_pair@, action, price, now),
{
    let mut i: usize = 0;
    while i < storage.len()
        invariant
            i <= storage@.len(),
            forall|j: int|
                0 <= j < i ==> !duplicates(
                    #[trigger] storage@[j],
                    *provider,
                    asset_pair@,
                    action,
                    price,
                    now,
                ),
        decreases storage@.len() - i,
    {
        let earlier = &storage[i];
        let recent = now < earlier.timestamp || now - earlier.timestamp < DUPLICATE_WINDOW_SECONDS;
        if earlier.provider == *provider && earlier.asset_pair == *asset_pair && earlier.action
            == action && earlier.price == price && recent {
            return true;
        }
        i = i + 1;
    }
    false
}

/// Stores a signal of `provider` submitted at `now` and returns its
/// identifier, which is the number of signals stored before it plus one.
/// The signal expires 24 hours after `now`.
///
/// Fails, changing nothing, with the first of: `NoStake` when the provider
/// has no stake on record; `BelowMinimumStake` when the stake is below the
/// minimum; `InvalidAssetPair`; `InvalidPrice` when the price is not
/// positive; `EmptyRationale`; `DuplicateSignal`.
pub fn submit_signal(
    storage: &mut Vec<Signal>,
    provider_stakes: &AddressMap<StakeInfo>,
    provider: &Address,
    asset_pair: String,
    action: Action,
    price: i128,
    rationale: String,
    now: u64,
) -> (r: Result<u64, Error>)
    requires
        provider_stakes.wf(),
        old(storage)@.len() < u64::MAX,
        now + SIGNAL_LIFETIME_SECONDS <= u64::MAX,
    ensures
        r == submission_result(
            old(storage)@,
            provider_stakes@,
            *provider,
            asset_pair@,
            action,
            price,
            rationale@,
            now,
        ),
        r is Err ==> final(storage)@ == old(storage)@,
        r is Ok ==> final(storage)@ == old(storage)@.push(
            Signal {
                provider: *provider,
                asset_pair,
                action,
                price,
                rationale,
                timestamp: now,
                expiry: (now + SIGNAL_LIFETIME_SECONDS) as u64,
            },
        ),
{
    if can_submit_signal(provider_stakes, provider).is_err() {
        return Err(Error::NoStake);
    }
    let stake_info = match provider_stakes.get(provider) {
        Some(info) => *info,
        None => {
            return Err(Error::NoStake);
        },
    };
    if stake_info.amount < DEFAULT_MINIMUM_STAKE {
        return Err(Error::BelowMinimumStake);
    }
    let pair_len = text_len(asset_pair.as_str());
    if pair_len < MIN_ASSET_PAIR_LEN || pair_len > MAX_ASSET_PAIR_LEN || !contains_char(
        asset_pair.as_str(),
        '/',
    ) {
        return Err(Error::InvalidAssetPair);
    }
    if price <= 0 {
        return Err(Error::InvalidPrice);
    }
    if rationale.as_str().is_empty() || text_len(rationale.as_str()) > MAX_RATIONALE_LEN {
        return Err(Error::EmptyRationale);
    }
    if find_duplicate(storage, provider, &asset_pair, action, price, now) {
        return Err(Error::DuplicateSignal);
    }
    let next_id: u64 = storage.len() as u64 + 1;
    storage.push(
        Signal {
            provider: *provider,
            asset_pair,
            action,
            price,
            rationale,
            timestamp: now,
            expiry: now + SIGNAL_LIFETIME_SECONDS,
        },
    );
    Ok(next_id)
}

} // verus!
