//! The entry points that only read the proxy's state.

use crate::models::error::ProxyError;
use crate::models::users::UserInfo;
use crate::IntentsProxyMpcContract;
use vstd::prelude::*;

verus! {

impl IntentsProxyMpcContract {
    /// The portfolios that were assigned to an agent, in the order in which
    /// they were assigned.
    pub fn get_agent_info(&self, agent_id: &String) -> (portfolios: Result<Vec<String>, ProxyError>)
        ensures
            match portfolios {
                Ok(list) => self@.agents.contains_key(agent_id@) && list.deep_view()
                    == self@.agents[agent_id@],
                Err(e) => !self@.agents.contains_key(agent_id@) && e == ProxyError::AgentNotFound,
            },
    {
        match self.agent_info.get(agent_id) {
            Some(agent) => Ok(agent.portfolios.to_vec()),
            None => Err(ProxyError::AgentNotFound),
        }
    }

    /// The record of an owner, if there is one.
    pub fn get_user_info(&self, user_id: &String) -> (record: Option<UserInfo>)
        ensures
            match record {
                Some(user) => self@.users.contains_key(user_id@) && user@ == self@.users[user_id@],
                None => !self@.users.contains_key(user_id@),
            },
    {
        match self.user_info.get(user_id) {
            Some(user) => Some(user.clone()),
            None => None,
        }
    }
}

} // verus!
