//! The flow that an owner starts: withdrawing from their own portfolio.

use super::dispatch::sign_call;
use crate::models::contract::{CallContext, SignCall};
use crate::models::intents::DefuseIntents;
use crate::utils::{batch_hash, compute_erc191_hash};
use crate::IntentsProxyMpcContract;
use vstd::prelude::*;

verus! {

impl IntentsProxyMpcContract {
    /// Asks for a signature on the caller's own batch of intents, of whatever
    /// kinds. The key is derived from the caller's account, so a caller can
    /// only ever move what is their own.
    pub fn withdraw_funds(&self, ctx: &CallContext, defuse_intent: DefuseIntents) -> (call:
        SignCall)
        ensures
            call@ == sign_call(
                self@.mpc_contract_id,
                batch_hash(defuse_intent@),
                ctx.predecessor_account_id@,
                0,
            ),
    {
        let intent_hash = compute_erc191_hash(&defuse_intent);
        self.dispatch(intent_hash, ctx.predecessor_account_id.as_str(), 0)
    }
}

} // verus!
