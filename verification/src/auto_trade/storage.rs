//! Records that the auto-trade contract keeps.

use std::collections::HashMap;
use vstd::prelude::*;
use crate::address::Address;
use crate::address_map::AddressMap;

verus! {

/// A trade signal as the auto-trade contract sees it.
#[derive(Clone, Copy, Debug, PartialEq, Eq, Structural)]
pub struct Signal {
    pub signal_id: u64,
    pub price: i128,
    pub expiry: u64,
    pub base_asset: u32,
}

/// Keys under which a host stores the auto-trade records.
#[derive(Clone, Copy, Debug)]
pub enum DataKey {
    /// Trade of a user on a signal.
    Trades(Address, u64),
    /// Signal by identifier.
    Signal(u64),
    /// Whether a user is authorised.
    Authorized(Address),
}

/// The signal stored under `id`, if there is one.
pub fn get_signal(signals: &HashMap<u64, Signal>, id: u64) -> (r: Option<Signal>)
    ensures
        r == if signals@.dom().contains(id) {
            Some(signals@[id])
        } else {
            None
        },
{
    broadcast use vstd::std_specs::hash::group_hash_axioms;

    match signals.get(&id) {
        Some(signal) => Some(*signal),
        None => None,
    }
}

/// Stores `signal` under `id`, replacing what was stored there.
pub fn set_signal(signals: &mut HashMap<u64, Signal>, id: u64, signal: &Signal)
    ensures
        final(signals)@ == old(signals)@.insert(id, *signal),
{
    broadcast use vstd::std_specs::hash::group_hash_axioms;

    signals.insert(id, *signal);
}

/// Whether `user` may trade; a user without a record may not.
pub fn is_authorized(authorized: &AddressMap<bool>, user: &Address) -> (r: bool)
    requires
        authorized.wf(),
    ensures
        r == (authorized@.dom().contains(*user) && authorized@[*user]),
{
    match authorized.get(user) {
        Some(flag) => *flag,
        None => false,
    }
}

/// Allows `user` to trade.
pub fn authorize_user(authorized: &mut AddressMap<bool>, user: &Address)
    requires
        old(authorized).wf(),
    ensures
        final(authorized).wf(),
        final(authorized)@ == old(authorized)@.insert(*user, true),
{
    authorized.set(*user, true);
}

} // verus!
