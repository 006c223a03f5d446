//! Creating a portfolio and handing it to an agent.

use crate::models::contract::{CallContext, PortfolioSpread};
use crate::models::error::ProxyError;
use crate::models::users::{UserInfo, UserInfoView};
use crate::{ContractView, IntentsProxyMpcContract};
use vstd::prelude::*;

verus! {

/// A set of accounts with one more account, which goes to the end unless the
/// set holds it already.
pub open spec fn with_account(accounts: Seq<Seq<char>>, account: Seq<char>) -> Seq<Seq<char>> {
    if accounts.contains(account) {
        accounts
    } else {
        accounts.push(account)
    }
}

/// The state after `owner` created a portfolio and assigned it to `agent_id`:
/// the owner has a fresh record with no activities, and the agent may act for
/// the owner as well as for everyone it could act for before.
pub open spec fn assigned(
    state: ContractView,
    owner: Seq<char>,
    agent_id: Seq<char>,
    spread: Map<Seq<char>, u64>,
    address: Seq<char>,
) -> ContractView {
    ContractView {
        users: state.users.insert(
            owner,
            UserInfoView {
                required_spread: spread,
                near_intents_address: address,
                activities: Seq::empty(),
            },
        ),
        agents: state.agents.insert(agent_id, with_account(state.agents[agent_id], owner)),
        ..state
    }
}

impl IntentsProxyMpcContract {
    /// Creates the caller's portfolio, replacing the one that the caller had,
    /// and assigns it to the agent `agent_id`, which must be registered.
    pub fn create_portfolio(
        &mut self,
        ctx: &CallContext,
        portfolio_data: PortfolioSpread,
        agent_id: String,
        near_intents_address: String,
    ) -> (done: Result<(), ProxyError>)
        ensures
            done is Ok <==> old(self)@.agents.contains_key(agent_id@),
            done is Ok ==> final(self)@ == assigned(
                old(self)@,
                ctx.predecessor_account_id@,
                agent_id@,
                portfolio_data.deep_view(),
                near_intents_address@,
            ),
            done matches Err(e) ==> e == ProxyError::AgentNotFound && final(self)@ == old(self)@,
    {
        let mut agent_info = match self.agent_info.remove(&agent_id) {
            Some(info) => info,
            None => {
                assert(self.agent_info@ =~= old(self).agent_info@);
                return Err(ProxyError::AgentNotFound);
            },
        };
        let owner_id = ctx.predecessor_account_id.clone();
        let user = UserInfo {
            required_spread: portfolio_data,
            near_intents_address,
            activities: Vec::new(),
        };
        assert(user.activities.deep_view() =~= Seq::<Seq<char>>::empty());
        self.user_info.insert(owner_id.clone(), user);
        agent_info.portfolios.insert(owner_id);
        self.agent_info.insert(agent_id, agent_info);
        proof {
            let after = assigned(
                old(self)@,
                ctx.predecessor_account_id@,
                agent_id@,
                portfolio_data.deep_view(),
                near_intents_address@,
            );
            assert(self.agent_info@ =~= old(self).agent_info@.insert(agent_id@, agent_info));
            assert(self@.users =~= after.users);
            assert(self@.agents =~= after.agents);
        }
        Ok(())
    }
}

} // verus!
