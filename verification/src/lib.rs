//! A persistent, mergeable key-value map with last-writer-wins conflict
//! resolution, backed by a sled store. Two replicas mutated independently
//! converge once each has merged the other's entries: for every key the
//! element with the greatest timestamp survives, ties favoring the
//! receiving replica.

pub mod clock;
pub mod error;
pub mod laws;
pub mod lwwmap;
pub mod store;

pub use error::LWWMapError;
pub use lwwmap::LWWElement;
pub use lwwmap::LWWMap;
