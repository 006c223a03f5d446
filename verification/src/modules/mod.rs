//! The entry points that change the proxy's state or ask for a signature.

pub mod balance_portfolio;
pub mod create_portfolio;
pub mod dispatch;
pub mod register_agent;
pub mod withdraw_funds;
