//! Capability tokens: what they grant, how they are minted, attenuated and verified.

pub mod biscuit;
pub mod datalog;
pub mod engine;
pub mod error;
pub mod glob;
pub mod keys;
pub mod laws;
pub mod operation;
pub mod state;
pub mod stateful;
