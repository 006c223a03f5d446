//! A policy-gated signing proxy for token intents: who may act on which
//! portfolio, what a batch of intents may hold, how a batch is fingerprinted,
//! and what is asked of the signer once everything matches.
//!
//! The proxy holds no funds and signs nothing itself. Every entry point takes
//! what the chain tells about the call as a [`CallContext`], and those that ask
//! for a signature give back the call of the signer that is to be scheduled.

pub mod distinct;
pub mod encoding;
pub mod json;
pub mod laws;
pub mod models;
pub mod modules;
pub mod outside;
pub mod utils;
pub mod views;

use models::agent_info::AgentInfo;
use models::contract::{CallContext, Flow};
use models::error::ProxyError;
use models::store::AccountMap;
use models::users::{UserInfo, UserInfoView};
use vstd::prelude::*;

verus! {

/// The state of the proxy: a record for each owner of a portfolio, a record
/// for each agent, and the account of the signer.
pub struct IntentsProxyMpcContract {
    pub user_info: AccountMap<UserInfo>,
    pub agent_info: AccountMap<AgentInfo>,
    /// The signer that is asked for signatures.
    pub mpc_contract_id: String,
}

/// The state of the proxy as plain values.
pub struct ContractView {
    /// The record of each owner.
    pub users: Map<Seq<char>, UserInfoView>,
    /// For each agent, the owners on whose behalf it may act, in the order in
    /// which they were assigned.
    pub agents: Map<Seq<char>, Seq<Seq<char>>>,
    pub mpc_contract_id: Seq<char>,
}

impl View for IntentsProxyMpcContract {
    type V = ContractView;

    open spec fn view(&self) -> ContractView {
        ContractView {
            users: self.user_info@.map_values(|u: UserInfo| u@),
            agents: self.agent_info@.map_values(|a: AgentInfo| a@),
            mpc_contract_id: self.mpc_contract_id@,
        }
    }
}

/// Whether `caller` may ask for a signature on behalf of `target`. An agent
/// may do so for the portfolios that were assigned to it; an owner only for
/// their own.
pub open spec fn can_act(
    state: ContractView,
    caller: Seq<char>,
    target: Seq<char>,
    flow: Flow,
) -> bool {
    match flow {
        Flow::AgentInitiated => state.agents.contains_key(caller) && state.agents[caller].contains(
            target,
        ),
        Flow::OwnerInitiated => caller == target,
    }
}

/// Whether every portfolio that an agent may act on has a record.
pub open spec fn consistent(state: ContractView) -> bool {
    forall|agent: Seq<char>, owner: Seq<char>|
        state.agents.contains_key(agent) && #[trigger] state.agents[agent].contains(owner)
            ==> state.users.contains_key(owner)
}

impl IntentsProxyMpcContract {
    /// A proxy with no owners and no agents, which asks `mpc_contract_id` for
    /// signatures.
    pub fn new(mpc_contract_id: String) -> (contract: Self)
        ensures
            contract@ == (ContractView {
                users: Map::empty(),
                agents: Map::empty(),
                mpc_contract_id: mpc_contract_id@,
            }),
    {
        let contract = IntentsProxyMpcContract {
            user_info: AccountMap::new(),
            agent_info: AccountMap::new(),
            mpc_contract_id,
        };
        assert(contract@.users =~= Map::empty());
        assert(contract@.agents =~= Map::empty());
        contract
    }

    /// Names another signer. Only the proxy's own account may do so.
    pub fn set_mpc_contract_id(&mut self, ctx: &CallContext, mpc_contract_id: String) -> (done:
        Result<(), ProxyError>)
        ensures
            done is Ok <==> ctx.predecessor_account_id@ == ctx.current_account_id@,
            done is Ok ==> final(self)@ == (ContractView {
                mpc_contract_id: mpc_contract_id@,
                ..old(self)@
            }),
            done matches Err(e) ==> e == ProxyError::NotOwner && final(self)@ == old(self)@,
    {
        if ctx.predecessor_account_id != ctx.current_account_id {
            return Err(ProxyError::NotOwner);
        }
        self.mpc_contract_id = mpc_contract_id;
        Ok(())
    }

    /// Whether `caller` may ask for a signature on behalf of `target`.
    pub fn can_act(&self, caller: &String, target: &String, flow: Flow) -> (allowed: bool)
        ensures
            allowed == can_act(self@, caller@, target@, flow),
    {
        match flow {
            Flow::AgentInitiated => match self.agent_info.get(caller) {
                Some(agent) => agent.portfolios.contains(target),
                None => false,
            },
            Flow::OwnerInitiated => *caller == *target,
        }
    }
}

} // verus!
