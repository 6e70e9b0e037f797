//! Stake-weighted governance for a price-oracle service, together with the
//! signal-registry and auto-trade helpers that surround it.

pub mod address;
pub mod address_map;
pub mod arith;
pub mod auto_trade;
pub mod oracle;
pub mod signal_registry;
pub mod text;
