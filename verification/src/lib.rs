//! Capabilities, replication rules and onboarding logic of the `ctxd` context daemon.

#![allow(unused_imports)]

pub mod cap;
pub mod cli;
pub mod embedder;
pub mod event;
pub mod federation;
pub mod json;
pub mod mcp_proxy;
pub mod minimal;
pub mod onboard;
pub mod outside;
pub mod path;
pub mod pidfile;
pub mod protocol;
pub mod query;
pub mod rate_limit;
pub mod serve;
pub mod storage_selector;
pub mod text;
pub mod textmap;
pub mod time;
