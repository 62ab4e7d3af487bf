//! Verified core of a bridge between Rust futures and gevent: the decimal
//! formatting of sums, the registry of named timings, the way a finished
//! computation is handed to a gevent object, and the lifecycle of the shared
//! `ThreadResult` that links a sender to a receiver.

pub mod formatting;
pub mod timing;
pub mod delivery;
pub mod lifecycle;
