//! The flow that an agent starts: rebalancing a portfolio that was assigned
//! to it.

use super::dispatch::sign_call;
use crate::models::contract::{CallContext, Flow, SignCall};
use crate::models::error::ProxyError;
use crate::models::intents::{batch_allowed, DefuseIntents, DefuseIntentsView};
use crate::models::users::{activity_records, UserInfoView};
use crate::utils::{batch_hash, claimed_hash, compute_erc191_hash, parse_hash, same_hash};
use crate::{ContractView, IntentsProxyMpcContract};
use vstd::prelude::*;

verus! {

/// Why a rebalancing is refused, if it is. The checks are made in this order:
/// the caller is an agent; the portfolio is assigned to it; the portfolio has
/// a record; the batch holds token diffs only; the hash handed in can be read;
/// it is the hash of the batch.
pub open spec fn balance_refusal(
    state: ContractView,
    agent_id: Seq<char>,
    user_portfolio: Seq<char>,
    hash: Seq<char>,
    batch: DefuseIntentsView,
) -> Option<ProxyError> {
    if !state.agents.contains_key(agent_id) {
        Some(ProxyError::CallerNotAgent)
    } else if !state.agents[agent_id].contains(user_portfolio) {
        Some(ProxyError::AgentNotAssigned)
    } else if !state.users.contains_key(user_portfolio) {
        Some(ProxyError::UserNotFound)
    } else if !batch_allowed(batch, Flow::AgentInitiated) {
        Some(ProxyError::FlowViolation)
    } else {
        match claimed_hash(hash) {
            Err(e) => Some(e),
            Ok(claimed) => if claimed != batch_hash(batch) {
                Some(ProxyError::HashMismatch)
            } else {
                None
            },
        }
    }
}

/// The state after an agent rebalanced a portfolio: the portfolio's record has
/// one more activity for each intent of the batch.
pub open spec fn balanced(
    state: ContractView,
    agent_id: Seq<char>,
    timestamp: u64,
    user_portfolio: Seq<char>,
    batch: DefuseIntentsView,
) -> ContractView {
    ContractView {
        users: state.users.insert(
            user_portfolio,
            UserInfoView {
                activities: state.users[user_portfolio].activities + activity_records(
                    agent_id,
                    timestamp,
                    batch.intents,
                ),
                ..state.users[user_portfolio]
            },
        ),
        ..state
    }
}

impl IntentsProxyMpcContract {
    /// Asks for a signature on a batch of token diffs that the calling agent
    /// wants to have applied to `user_portfolio`. `hash` is the batch's hash as
    /// the agent computed it: `0x` and 64 hexadecimal digits. When every check passes, the portfolio's record gains one
    /// activity for each token diff, and the call of the signer comes back,
    /// with the key derived from the portfolio's account. When a check fails,
    /// nothing changes.
    pub fn balance_portfolio(
        &mut self,
        ctx: &CallContext,
        user_portfolio: String,
        hash: String,
        defuse_intents: DefuseIntents,
    ) -> (outcome: Result<SignCall, ProxyError>)
        ensures
            match balance_refusal(
                old(self)@,
                ctx.predecessor_account_id@,
                user_portfolio@,
                hash@,
                defuse_intents@,
            ) {
                Some(e) => outcome == Err::<SignCall, ProxyError>(e) && final(self)@ == old(self)@,
                None => {
                    &&& outcome matches Ok(call)
                    &&& call@ == sign_call(
                        old(self)@.mpc_contract_id,
                        batch_hash(defuse_intents@),
                        user_portfolio@,
                        0,
                    )
                    &&& final(self)@ == balanced(
                        old(self)@,
                        ctx.predecessor_account_id@,
                        ctx.block_timestamp,
                        user_portfolio@,
                        defuse_intents@,
                    )
                },
            },
    {
        let agent = match self.agent_info.get(&ctx.predecessor_account_id) {
            Some(agent) => agent,
            None => {
                return Err(ProxyError::CallerNotAgent);
            },
        };
        if !agent.portfolios.contains(&user_portfolio) {
            return Err(ProxyError::AgentNotAssigned);
        }
        if !self.user_info.contains_key(&user_portfolio) {
            return Err(ProxyError::UserNotFound);
        }
        match defuse_intents.validate(Flow::AgentInitiated) {
            Ok(()) => {},
            Err(e) => {
                return Err(e);
            },
        }
        let final_hash: [u8; 32] = match parse_hash(hash.as_str()) {
            Ok(h) => h,
            Err(e) => {
                return Err(e);
            },
        };
        let final_hash2 = compute_erc191_hash(&defuse_intents);
        if !same_hash(&final_hash, &final_hash2) {
            return Err(ProxyError::HashMismatch);
        }
        let call = self.dispatch(final_hash, user_portfolio.as_str(), 0);
        match self.user_info.remove(&user_portfolio) {
            Some(mut user) => {
                user.record(
                    ctx.predecessor_account_id.as_str(),
                    ctx.block_timestamp,
                    &defuse_intents.intents,
                );
                self.user_info.insert(user_portfolio, user);
                proof {
                    let after = balanced(
                        old(self)@,
                        ctx.predecessor_account_id@,
                        ctx.block_timestamp,
                        user_portfolio@,
                        defuse_intents@,
                    );
                    assert(self.user_info@ =~= old(self).user_info@.insert(user_portfolio@, user));
                    assert(self@.users =~= after.users);
                }
            },
            None => {},
        }
        Ok(call)
    }
}

} // verus!
