//! Federation: who may be a peer, what is sent to it, and what is taken from it.

pub mod backfill;
pub mod handshake;
pub mod manager;
pub mod policy;
pub mod replay;
