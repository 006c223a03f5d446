//! Asking the signer for a signature.

use crate::models::contract::{SignCall, SignCallView, FETCH_MPC_SIGNATURE_GAS, SIGN_DEPOSIT};
use crate::models::mpc::{MPCSignPayload, MPCSignPayloadView};
use crate::utils::{sign_request_json, sign_request_text};
use crate::IntentsProxyMpcContract;
use vstd::prelude::*;
use vstd::string::StringExecFns;

verus! {

/// The call that asks `signer` to sign `hash` under the key that `path`
/// derives: the method `sign`, with a fixed deposit and a fixed amount of gas.
pub open spec fn sign_call(
    signer: Seq<char>,
    hash: Seq<u8>,
    path: Seq<char>,
    key_version: u32,
) -> SignCallView {
    SignCallView {
        receiver_id: signer,
        method_name: "sign"@,
        arguments: sign_request_json(MPCSignPayloadView { payload: hash, path, key_version }),
        deposit: SIGN_DEPOSIT,
        gas: FETCH_MPC_SIGNATURE_GAS,
    }
}

impl IntentsProxyMpcContract {
    /// Builds the call of the signer for a hash. The call is handed back to be
    /// scheduled; nothing waits for the signature.
    pub fn dispatch(&self, hash: [u8; 32], path: &str, key_version: u32) -> (call: SignCall)
        ensures
            call@ == sign_call(self@.mpc_contract_id, hash@, path@, key_version),
    {
        let sign_payload = MPCSignPayload {
            payload: hash,
            path: String::from_str(path),
            key_version,
        };
        SignCall {
            receiver_id: self.mpc_contract_id.clone(),
            method_name: String::from_str("sign"),
            arguments: sign_request_text(&sign_payload),
            deposit: SIGN_DEPOSIT,
            gas: FETCH_MPC_SIGNATURE_GAS,
        }
    }
}

} // verus!
