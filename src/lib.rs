//! A polling media indexer: a cutoff-bounded directory scanner, a timing
//! cache of per-location cutoffs, a full-reload countdown, a dedup step
//! against an event store, and a signing service for stateless file access.
pub mod cache;
pub mod cycle;
pub mod dedup;
pub mod plugin;
pub mod reload;
pub mod scan;
pub mod signing;
pub mod status;
pub mod time;
pub mod wire;
