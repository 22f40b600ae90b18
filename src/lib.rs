//! Bridge hub, message correlation and per-account session lifecycle for a
//! two-platform chat relay.

pub mod config;
pub mod error;
pub mod token;
pub mod session;
pub mod hub;
pub mod correlator;
pub mod model;
pub mod store;
pub mod supervisor;
