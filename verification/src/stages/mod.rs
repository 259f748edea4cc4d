//! The staged sync: stages, their inputs and outputs, and the pipeline that
//! runs them.

pub mod checkpoint;
pub mod stage;
pub mod ctrl;
pub mod progress;
pub mod event;
pub mod pipeline;
pub mod builder;
pub mod set;
pub mod merkle;
pub mod sets;
pub mod headers;
pub mod bodies;
pub mod total_difficulty;
