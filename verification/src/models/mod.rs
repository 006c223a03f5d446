//! The data that the proxy keeps and exchanges.

pub mod agent_info;
pub mod contract;
pub mod error;
pub mod intents;
pub mod mpc;
pub mod public_key;
pub mod store;
pub mod users;
