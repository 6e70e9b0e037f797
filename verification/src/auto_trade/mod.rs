//! Order execution against the decentralised exchange.

pub mod error;
pub mod multi_asset;
pub mod sdex;
pub mod storage;
