//! Orchestration of block proofs over a contiguous range of chain blocks.
//!
//! The proving work itself is performed by a distributed backend; this crate
//! holds the decisions around it: which stage a block is in, what to ask of
//! the backend next, how the proofs of consecutive blocks are linked, and
//! which statistics accompany a finished proof.

pub mod chain;
pub mod checkpoint;
pub mod clock;
pub mod pipeline;
pub mod psm;
pub mod stats;
pub mod word;
