//! The transaction pool: per-sender bookkeeping, sub-pools and their rules.

pub mod sender_map;
pub mod identifier;
pub mod state;
pub mod config;
pub mod validate;
pub mod by_id;
pub mod update;
pub mod txpool;
pub mod parked;
pub mod ordering;
pub mod pending;
pub mod moves;
pub mod funding;
pub mod graph;
pub mod events;
pub mod api;
pub mod scenario;
