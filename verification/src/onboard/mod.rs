//! `ctxd onboard` and `ctxd offboard`: what each step decides, and the messages that
//! tell of it.

pub mod caps;
pub mod clients;
pub mod doctor;
pub mod paths;
pub mod pipeline;
pub mod protocol;
pub mod seeds;
pub mod service;
pub mod skills;
pub mod snapshot;
