use intents_proxy::models::contract::{CallContext, Flow};
use intents_proxy::models::error::ProxyError;
use intents_proxy::IntentsProxyMpcContract;
use std::collections::HashMap;

fn call_by(predecessor: &str) -> CallContext {
    CallContext {
        predecessor_account_id: predecessor.to_string(),
        current_account_id: "proxy.near".to_string(),
        block_timestamp: 1,
    }
}

fn proxy_with_agents(agents: &[&str]) -> IntentsProxyMpcContract {
    let mut contract = IntentsProxyMpcContract::new("signer.near".to_string());
    for agent in agents {
        assert_eq!(contract.register_agent(&call_by("proxy.near"), agent.to_string()), Ok(()));
    }
    contract
}

fn assign(contract: &mut IntentsProxyMpcContract, owner: &str, agent: &str) -> Result<(), ProxyError> {
    contract.create_portfolio(
        &call_by(owner),
        HashMap::new(),
        agent.to_string(),
        format!("{owner}-intents"),
    )
}

fn may(contract: &IntentsProxyMpcContract, caller: &str, target: &str, flow: Flow) -> bool {
    contract.can_act(&caller.to_string(), &target.to_string(), flow)
}

#[test]
fn a_new_proxy_knows_nobody() {
    let contract = IntentsProxyMpcContract::new("signer.near".to_string());
    assert_eq!(contract.mpc_contract_id, "signer.near");
    assert_eq!(contract.get_agent_info(&"agent1".to_string()), Err(ProxyError::AgentNotFound));
    assert!(contract.get_user_info(&"alice".to_string()).is_none());
    assert!(!may(&contract, "agent1", "alice", Flow::AgentInitiated));
}

#[test]
fn only_the_proxy_itself_registers_agents() {
    let mut contract = IntentsProxyMpcContract::new("signer.near".to_string());
    assert_eq!(
        contract.register_agent(&call_by("mallory.near"), "agent1".to_string()),
        Err(ProxyError::NotOwner)
    );
    assert_eq!(contract.get_agent_info(&"agent1".to_string()), Err(ProxyError::AgentNotFound));
    assert_eq!(contract.register_agent(&call_by("proxy.near"), "agent1".to_string()), Ok(()));
    assert_eq!(contract.get_agent_info(&"agent1".to_string()), Ok(vec![]));
}

#[test]
fn only_the_proxy_itself_names_the_signer() {
    let mut contract = IntentsProxyMpcContract::new("signer.near".to_string());
    assert_eq!(
        contract.set_mpc_contract_id(&call_by("mallory.near"), "evil.near".to_string()),
        Err(ProxyError::NotOwner)
    );
    assert_eq!(contract.mpc_contract_id, "signer.near");
    assert_eq!(contract.set_mpc_contract_id(&call_by("proxy.near"), "signer2.near".to_string()), Ok(()));
    assert_eq!(contract.mpc_contract_id, "signer2.near");
}

#[test]
fn a_portfolio_needs_a_registered_agent() {
    let mut contract = proxy_with_agents(&["agent1"]);
    assert_eq!(assign(&mut contract, "alice", "nobody"), Err(ProxyError::AgentNotFound));
    assert!(contract.get_user_info(&"alice".to_string()).is_none());
    assert_eq!(contract.get_agent_info(&"agent1".to_string()), Ok(vec![]));
}

#[test]
fn a_portfolio_is_created_with_what_was_handed_in() {
    let mut contract = proxy_with_agents(&["agent1"]);
    let mut spread = HashMap::new();
    spread.insert("USDC".to_string(), 60u64);
    spread.insert("ETH".to_string(), 40u64);
    assert_eq!(
        contract.create_portfolio(
            &call_by("alice"),
            spread.clone(),
            "agent1".to_string(),
            "alice.near-intents".to_string(),
        ),
        Ok(())
    );
    let user = contract.get_user_info(&"alice".to_string()).unwrap();
    assert_eq!(user.required_spread, spread);
    assert_eq!(user.near_intents_address, "alice.near-intents");
    assert!(user.activities.is_empty());
    assert_eq!(contract.get_agent_info(&"agent1".to_string()), Ok(vec!["alice".to_string()]));
}

#[test]
fn an_agent_acts_for_its_portfolios_and_no_others() {
    let mut contract = proxy_with_agents(&["agent1", "agent2"]);
    assert_eq!(assign(&mut contract, "alice", "agent1"), Ok(()));
    assert_eq!(assign(&mut contract, "bob", "agent2"), Ok(()));
    assert!(may(&contract, "agent1", "alice", Flow::AgentInitiated));
    assert!(!may(&contract, "agent1", "bob", Flow::AgentInitiated));
    assert!(may(&contract, "agent2", "bob", Flow::AgentInitiated));
    assert!(!may(&contract, "agent2", "alice", Flow::AgentInitiated));
    assert!(!may(&contract, "alice", "alice", Flow::AgentInitiated));
    assert!(!may(&contract, "nobody", "alice", Flow::AgentInitiated));
}

#[test]
fn an_owner_acts_for_itself_only() {
    let contract = proxy_with_agents(&["agent1"]);
    assert!(may(&contract, "alice", "alice", Flow::OwnerInitiated));
    assert!(!may(&contract, "alice", "bob", Flow::OwnerInitiated));
    assert!(!may(&contract, "agent1", "alice", Flow::OwnerInitiated));
}

#[test]
fn an_owner_can_be_under_two_agents_at_once() {
    let mut contract = proxy_with_agents(&["agent1", "agent2"]);
    assert_eq!(assign(&mut contract, "alice", "agent1"), Ok(()));
    assert_eq!(assign(&mut contract, "alice", "agent2"), Ok(()));
    assert!(may(&contract, "agent1", "alice", Flow::AgentInitiated));
    assert!(may(&contract, "agent2", "alice", Flow::AgentInitiated));
    assert_eq!(contract.get_agent_info(&"agent1".to_string()), Ok(vec!["alice".to_string()]));
    assert_eq!(contract.get_agent_info(&"agent2".to_string()), Ok(vec!["alice".to_string()]));
}

#[test]
fn assigning_twice_to_one_agent_lists_the_owner_once() {
    let mut contract = proxy_with_agents(&["agent1"]);
    assert_eq!(assign(&mut contract, "alice", "agent1"), Ok(()));
    assert_eq!(assign(&mut contract, "bob", "agent1"), Ok(()));
    assert_eq!(assign(&mut contract, "alice", "agent1"), Ok(()));
    assert_eq!(
        contract.get_agent_info(&"agent1".to_string()),
        Ok(vec!["alice".to_string(), "bob".to_string()])
    );
}

#[test]
fn registering_again_takes_the_portfolios_away() {
    let mut contract = proxy_with_agents(&["agent1", "agent2"]);
    assert_eq!(assign(&mut contract, "alice", "agent1"), Ok(()));
    assert_eq!(assign(&mut contract, "alice", "agent2"), Ok(()));
    assert_eq!(contract.register_agent(&call_by("proxy.near"), "agent1".to_string()), Ok(()));
    assert_eq!(contract.get_agent_info(&"agent1".to_string()), Ok(vec![]));
    assert!(!may(&contract, "agent1", "alice", Flow::AgentInitiated));
    assert!(may(&contract, "agent2", "alice", Flow::AgentInitiated));
    assert!(contract.get_user_info(&"alice".to_string()).is_some());
}

#[test]
fn the_proxy_account_can_be_an_owner_too() {
    let mut contract = proxy_with_agents(&["agent1"]);
    assert_eq!(assign(&mut contract, "proxy.near", "agent1"), Ok(()));
    assert!(may(&contract, "agent1", "proxy.near", Flow::AgentInitiated));
}
