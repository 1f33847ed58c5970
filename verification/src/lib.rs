//! Latency probing and classification for locally listening SOCKS proxy
//! endpoints: a bounded fail-fast probe session per endpoint, statistical
//! summarization of the timed attempts, and a ranking of all probed
//! endpoints for presentation.

pub mod outcome;
pub mod stats;
pub mod classify;
pub mod session;
pub mod rank;
