//! The oracle contract: error codes, price staleness and governance.

pub mod errors;
pub mod governance;
pub mod laws;
pub mod ledger;
pub mod payload;
pub mod proposal;
pub mod registry;
pub mod staleness;
pub mod state;
pub mod tally;
