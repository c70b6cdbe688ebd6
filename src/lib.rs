//! Reputation-based proposer election for a round-based BFT protocol, together
//! with the small pieces of node configuration it is deployed with.

pub mod bytes;
pub mod config;
pub mod draw;
pub mod error;
pub mod heuristic;
pub mod leader_reputation;
pub mod metadata;
pub mod selection;
pub mod types;

