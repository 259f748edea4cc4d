//! A verified core of a staged-sync node: the transaction pool's bookkeeping
//! and the pipeline that drives sync stages.
#![allow(unused_imports)]

pub mod primitives;
pub mod pool;
pub mod stages;
pub mod storage;
