//! What the node stores: block body indices, the table layout, and what is
//! tracked of the chain.

pub mod blocks;
pub mod tables;
pub mod chain_info;
pub mod state;
