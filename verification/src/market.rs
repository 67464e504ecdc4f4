//! Public market data: the freshness rule, Binance symbol metadata and the
//! capability gate built on them.
pub mod binance;
pub mod capability;
pub mod freshness;
pub mod instrument_registry;
pub mod live;
pub mod metadata;
pub mod recorder;
pub mod shared;
pub mod subscription;
