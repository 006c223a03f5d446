//! Constants of the proxy, and the plain values that pass between it and the
//! chain.

use std::collections::HashMap;
use vstd::prelude::*;

verus! {

pub type PortfolioSpread = HashMap<String, u64>;

/// Gas attached to a call of the signer: 50 Tgas.
pub const FETCH_MPC_SIGNATURE_GAS: u64 = 50_000_000_000_000u64;

/// Gas for taking up what the signer returns: 20 Tgas.
pub const RESOLVE_MPC_SIGNATURE_GAS: u64 = 20_000_000_000_000u64;

/// Gas for fetching beacon data: 25 Tgas.
pub const FETCH_BEACON_GAS: u64 = 25_000_000_000_000u64;

/// Gas for taking up fetched beacon data: 200 Tgas.
pub const RESOLVE_BEACON_FETCH_GAS: u64 = 200_000_000_000_000u64;

/// Gas for fetching new code: 85 Tgas.
pub const FETCH_WASM_GAS: u64 = 85_000_000_000_000u64;

/// Gas for taking up fetched code: 175 Tgas.
pub const RESOLVE_WASM_FETCH_GAS: u64 = 175_000_000_000_000u64;

/// Gas for migrating the state: 50 Tgas.
pub const MIGRATE_GAS: u64 = 50_000_000_000_000u64;

/// Deposit attached to a call of the signer: 1 NEAR, in yoctoNEAR.
pub const SIGN_DEPOSIT: u128 = 1_000_000_000_000_000_000_000_000u128;

/// What the chain tells about the call that is being served.
pub struct CallContext {
    /// The account that made the call.
    pub predecessor_account_id: String,
    /// The account that the proxy itself runs under.
    pub current_account_id: String,
    /// The time of the block, in nanoseconds.
    pub block_timestamp: u64,
}

/// The two ways in which a signature can be asked for.
#[derive(Debug, Clone, Copy, PartialEq, Eq, Structural)]
pub enum Flow {
    /// An agent rebalances a portfolio that was assigned to it.
    AgentInitiated,
    /// An owner withdraws from their own portfolio.
    OwnerInitiated,
}

/// A call of the signer, ready to be scheduled: whom to call, which method,
/// with which arguments, deposit and gas.
#[derive(Debug)]
pub struct SignCall {
    pub receiver_id: String,
    pub method_name: String,
    /// The arguments, as JSON text.
    pub arguments: String,
    /// In yoctoNEAR.
    pub deposit: u128,
    pub gas: u64,
}

pub struct SignCallView {
    pub receiver_id: Seq<char>,
    pub method_name: Seq<char>,
    pub arguments: Seq<char>,
    pub deposit: u128,
    pub gas: u64,
}

impl View for SignCall {
    type V = SignCallView;

    open spec fn view(&self) -> SignCallView {
        SignCallView {
            receiver_id: self.receiver_id@,
            method_name: self.method_name@,
            arguments: self.arguments@,
            deposit: self.deposit,
            gas: self.gas,
        }
    }
}

} // verus!
