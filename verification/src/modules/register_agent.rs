//! Registering an agent.

use crate::models::agent_info::AgentInfo;
use crate::models::contract::CallContext;
use crate::models::error::ProxyError;
use crate::models::store::AccountSet;
use crate::{ContractView, IntentsProxyMpcContract};
use vstd::prelude::*;

verus! {

/// The state after `agent_id` was registered: the agent has a record, and no
/// portfolio is assigned to it, whatever was assigned before.
pub open spec fn registered(state: ContractView, agent_id: Seq<char>) -> ContractView {
    ContractView { agents: state.agents.insert(agent_id, Seq::empty()), ..state }
}

impl IntentsProxyMpcContract {
    /// Registers `agent_id` as an agent with no portfolios. Only the proxy's
    /// own account may do so. Registering an agent again takes its portfolios
    /// away.
    pub fn register_agent(&mut self, ctx: &CallContext, agent_id: String) -> (done: Result<
        (),
        ProxyError,
    >)
        ensures
            done is Ok <==> ctx.predecessor_account_id@ == ctx.current_account_id@,
            done is Ok ==> final(self)@ == registered(old(self)@, agent_id@),
            done matches Err(e) ==> e == ProxyError::NotOwner && final(self)@ == old(self)@,
    {
        if ctx.predecessor_account_id != ctx.current_account_id {
            return Err(ProxyError::NotOwner);
        }
        let info = AgentInfo { portfolios: AccountSet::new() };
        self.agent_info.insert(agent_id, info);
        assert(self@.agents =~= old(self)@.agents.insert(agent_id@, Seq::empty()));
        Ok(())
    }
}

} // verus!
