//! A loopback cache of game assets, keyed by numeric id: the naming of cache
//! files and origin URLs, the scan for a free port, the table that keeps one
//! fetch in flight per asset, and the per-request state machine that decides
//! between serving from the cache, fetching, and waiting for another fetch.

pub mod asset;
pub mod coordinator;
pub mod flow;
pub mod port;
