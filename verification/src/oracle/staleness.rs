//! Classification of a price by its age.

use vstd::prelude::*;

verus! {

/// Oldest age in seconds at which a price is still fresh.
pub const FRESH_MAX_AGE: u64 = 120;

/// Oldest age in seconds at which a price is still aging.
pub const AGING_MAX_AGE: u64 = 300;

/// Oldest age in seconds at which a price is still stale.
pub const STALE_MAX_AGE: u64 = 900;

/// How old a price is.
#[derive(Clone, Copy, Debug, PartialEq, Eq, Structural)]
pub enum StalenessLevel {
    /// At most two minutes old.
    Fresh,
    /// Between two and five minutes old.
    Aging,
    /// Between five and fifteen minutes old.
    Stale,
    /// More than fifteen minutes old.
    Critical,
}

/// What is known about the updates of one asset pair's price.
#[derive(Clone, Copy, Debug)]
pub struct PriceMetadata {
    pub last_update: u64,
    pub update_count_24h: u32,
    pub avg_update_interval: u64,
    pub staleness_level: StalenessLevel,
    pub is_paused: bool,
}

/// The age of a price at `current_time`: zero if it was updated later.
pub open spec fn price_age(last_update: u64, current_time: u64) -> int {
    if current_time >= last_update {
        current_time - last_update
    } else {
        0
    }
}

/// The level of a price of the given age.
pub open spec fn level_of_age(age: int) -> StalenessLevel {
    if age <= FRESH_MAX_AGE {
        StalenessLevel::Fresh
    } else if age <= AGING_MAX_AGE {
        StalenessLevel::Aging
    } else if age <= STALE_MAX_AGE {
        StalenessLevel::Stale
    } else {
        StalenessLevel::Critical
    }
}

/// Classifies the price described by `metadata` by its age at
/// `current_time`.
pub fn check_staleness(metadata: &PriceMetadata, current_time: u64) -> (level: StalenessLevel)
    ensures
        level == level_of_age(price_age(metadata.last_update, current_time)),
{
    let age: u64 = if current_time >= metadata.last_update {
        current_time - metadata.last_update
    } else {
        0
    };
    if age <= FRESH_MAX_AGE {
        StalenessLevel::Fresh
    } else if age <= AGING_MAX_AGE {
        StalenessLevel::Aging
    } else if age <= STALE_MAX_AGE {
        StalenessLevel::Stale
    } else {
        StalenessLevel::Critical
    }
}

} // verus!
