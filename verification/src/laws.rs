//! What holds of the proxy as a whole, beyond what each entry point promises
//! of a single call. That two different batches never have the same canonical
//! text is proved in [`crate::distinct`].

use crate::encoding::{
    batch_json, intent_array, optional_amount, optional_text, withdraw_options,
};
use crate::json::quoted;
use crate::models::error::ProxyError;
use crate::models::contract::Flow;
use crate::models::intents::{batch_allowed, DefuseIntents, DefuseIntentsView, IntentView};
use crate::models::users::activity_records;
use crate::modules::balance_portfolio::{balance_refusal, balanced};
use crate::modules::create_portfolio::assigned;
use crate::modules::register_agent::registered;
use crate::utils::{batch_hash, claimed_hash};
use crate::{can_act, consistent, ContractView};
use vstd::prelude::*;
use vstd::utf8::encode_utf8;

verus! {

/// Two batches with the same content have the same canonical text and the
/// same hash, however each of them was put together.
pub proof fn same_content_same_hash(a: DefuseIntents, b: DefuseIntents)
    requires
        a@ == b@,
    ensures
        batch_json(a@) == batch_json(b@),
        batch_hash(a@) == batch_hash(b@),
{
}

/// An agent may act for an owner exactly when the owner is among the
/// portfolios assigned to that agent; an account that is no agent may act for
/// nobody.
pub proof fn agent_acts_for_its_portfolios_only(
    state: ContractView,
    agent: Seq<char>,
    owner: Seq<char>,
)
    ensures
        state.agents.contains_key(agent) ==> (can_act(state, agent, owner, Flow::AgentInitiated)
            <==> state.agents[agent].contains(owner)),
        !state.agents.contains_key(agent) ==> !can_act(state, agent, owner, Flow::AgentInitiated),
{
}

/// An owner may act for themselves and for nobody else.
pub proof fn owner_acts_for_itself_only(state: ContractView, caller: Seq<char>, target: Seq<char>)
    ensures
        can_act(state, caller, target, Flow::OwnerInitiated) <==> caller == target,
{
}

/// Assigning a portfolio lets the named agent act for the owner.
pub proof fn assignment_authorizes(
    state: ContractView,
    owner: Seq<char>,
    agent_id: Seq<char>,
    spread: Map<Seq<char>, u64>,
    address: Seq<char>,
)
    requires
        state.agents.contains_key(agent_id),
    ensures
        can_act(assigned(state, owner, agent_id, spread, address), agent_id, owner, Flow::AgentInitiated),
{
    let accounts = state.agents[agent_id];
    if !accounts.contains(owner) {
        assert(accounts.push(owner)[accounts.len() as int] == owner);
    }
}

/// Assigning a portfolio takes nothing away: whoever could act for someone
/// before can still do so afterwards. In particular an owner who assigns their
/// portfolio to a second agent stays with the first one as well.
pub proof fn assignment_only_adds(
    state: ContractView,
    owner: Seq<char>,
    agent_id: Seq<char>,
    spread: Map<Seq<char>, u64>,
    address: Seq<char>,
    caller: Seq<char>,
    target: Seq<char>,
)
    requires
        state.agents.contains_key(agent_id),
        can_act(state, caller, target, Flow::AgentInitiated),
    ensures
        can_act(assigned(state, owner, agent_id, spread, address), caller, target, Flow::AgentInitiated),
{
    if caller == agent_id {
        let accounts = state.agents[agent_id];
        if !accounts.contains(owner) {
            let i = accounts.index_of(target);
            assert(accounts.push(owner)[i] == target);
        }
    }
}

/// An owner who assigned their portfolio to two agents, one after the other,
/// can be acted for by both.
pub proof fn owner_under_two_agents(
    state: ContractView,
    owner: Seq<char>,
    first: Seq<char>,
    second: Seq<char>,
    spread: Map<Seq<char>, u64>,
    address: Seq<char>,
)
    requires
        state.agents.contains_key(first),
        state.agents.contains_key(second),
    ensures
        ({
            let after = assigned(
                assigned(state, owner, first, spread, address),
                owner,
                second,
                spread,
                address,
            );
            can_act(after, first, owner, Flow::AgentInitiated) && can_act(
                after,
                second,
                owner,
                Flow::AgentInitiated,
            )
        }),
{
    let between = assigned(state, owner, first, spread, address);
    assignment_authorizes(state, owner, first, spread, address);
    assignment_only_adds(between, owner, second, spread, address, first, owner);
    assignment_authorizes(between, owner, second, spread, address);
}

/// Registering an agent anew takes its portfolios away and leaves every other
/// agent as it was.
pub proof fn registration_resets_the_agent(
    state: ContractView,
    agent_id: Seq<char>,
    caller: Seq<char>,
    target: Seq<char>,
)
    ensures
        !can_act(registered(state, agent_id), agent_id, target, Flow::AgentInitiated),
        caller != agent_id ==> (can_act(registered(state, agent_id), caller, target, Flow::AgentInitiated)
            <==> can_act(state, caller, target, Flow::AgentInitiated)),
{
}

/// Registering an agent keeps a record behind every assigned portfolio.
pub proof fn registration_keeps_consistency(state: ContractView, agent_id: Seq<char>)
    requires
        consistent(state),
    ensures
        consistent(registered(state, agent_id)),
{
    let after = registered(state, agent_id);
    assert forall|agent: Seq<char>, owner: Seq<char>|
        after.agents.contains_key(agent) && #[trigger] after.agents[agent].contains(
            owner,
        ) implies after.users.contains_key(owner) by {
        if agent != agent_id {
            assert(state.agents[agent].contains(owner));
        }
    }
}

/// Assigning a portfolio keeps a record behind every assigned portfolio.
pub proof fn assignment_keeps_consistency(
    state: ContractView,
    owner: Seq<char>,
    agent_id: Seq<char>,
    spread: Map<Seq<char>, u64>,
    address: Seq<char>,
)
    requires
        consistent(state),
        state.agents.contains_key(agent_id),
    ensures
        consistent(assigned(state, owner, agent_id, spread, address)),
{
    let after = assigned(state, owner, agent_id, spread, address);
    assert forall|agent: Seq<char>, other: Seq<char>|
        after.agents.contains_key(agent) && #[trigger] after.agents[agent].contains(
            other,
        ) implies after.users.contains_key(other) by {
        if agent != agent_id {
            assert(state.agents[agent].contains(other));
        } else if other != owner {
            let accounts = state.agents[agent_id];
            if !accounts.contains(owner) {
                let i = accounts.push(owner).index_of(other);
                assert(accounts[i] == other);
            }
            assert(state.agents[agent_id].contains(other));
        }
    }
}

/// A rebalancing keeps a record behind every assigned portfolio, changes no
/// one's rights, and only ever adds to the end of the activities.
pub proof fn rebalancing_only_appends(
    state: ContractView,
    agent_id: Seq<char>,
    timestamp: u64,
    user_portfolio: Seq<char>,
    batch: DefuseIntentsView,
)
    requires
        state.users.contains_key(user_portfolio),
    ensures
        ({
            let after = balanced(state, agent_id, timestamp, user_portfolio, batch);
            &&& after.agents == state.agents
            &&& after.users.dom() == state.users.dom()
            &&& consistent(state) ==> consistent(after)
            &&& forall|owner: Seq<char>| #[trigger]
                state.users.contains_key(owner) ==> state.users[owner].activities.is_prefix_of(
                    after.users[owner].activities,
                )
        }),
{
    let after = balanced(state, agent_id, timestamp, user_portfolio, batch);
    assert(after.users.dom() =~= state.users.dom());
    assert forall|owner: Seq<char>| #[trigger]
        state.users.contains_key(owner) implies state.users[owner].activities.is_prefix_of(
        after.users[owner].activities,
    ) by {
        let before = state.users[owner].activities;
        let now = after.users[owner].activities;
        assert(before =~= now.subrange(0, before.len() as int));
    }
}

/// A rebalancing that is accepted records every intent of the batch: since
/// the batch holds token diffs only, there are as many new activities as
/// intents.
pub proof fn accepted_batch_is_recorded_whole(
    agent_id: Seq<char>,
    timestamp: u64,
    intents: Seq<IntentView>,
)
    requires
        forall|i: int| 0 <= i < intents.len() ==> #[trigger] intents[i] is TokenDiff,
    ensures
        activity_records(agent_id, timestamp, intents).len() == intents.len(),
    decreases intents.len(),
{
    if intents.len() > 0 {
        accepted_batch_is_recorded_whole(agent_id, timestamp, intents.drop_last());
    }
}

/// One intent that is not a token diff has an agent's whole batch refused,
/// whatever else the batch holds and whatever hash comes with it.
pub proof fn one_foreign_intent_refuses_the_batch(
    state: ContractView,
    agent_id: Seq<char>,
    user_portfolio: Seq<char>,
    hash: Seq<char>,
    batch: DefuseIntentsView,
    at: int,
)
    requires
        0 <= at < batch.intents.len(),
        !(batch.intents[at] is TokenDiff),
    ensures
        !batch_allowed(batch, Flow::AgentInitiated),
        balance_refusal(state, agent_id, user_portfolio, hash, batch) is Some,
        can_act(state, agent_id, user_portfolio, Flow::AgentInitiated) && state.users.contains_key(
            user_portfolio,
        ) ==> balance_refusal(state, agent_id, user_portfolio, hash, batch) == Some(ProxyError::FlowViolation),
{
}

/// An owner's batch is allowed whatever kinds of intents it holds.
pub proof fn owner_batch_is_always_allowed(batch: DefuseIntentsView)
    ensures
        batch_allowed(batch, Flow::OwnerInitiated),
{
}

/// An optional member that is absent leaves no trace in the text: it is left
/// out, not written as `null`.
pub proof fn absent_members_are_left_out(label: Seq<char>)
    ensures
        optional_text(label, None) == Seq::<char>::empty(),
        optional_amount(label, None) == Seq::<char>::empty(),
        withdraw_options(None, None, None) == Seq::<char>::empty(),
{
    assert(withdraw_options(None, None, None) =~= Seq::<char>::empty());
}

/// A batch without a deadline has no deadline member at all: in its text the
/// nonce follows the signer.
pub proof fn absent_deadline_is_left_out(batch: DefuseIntentsView)
    requires
        batch.deadline is None,
    ensures
        batch_json(batch) == "{\"signer_id\":"@ + quoted(batch.signer_id) + ",\"nonce\":"@ + quoted(
            batch.nonce,
        ) + ",\"verifying_contract\":"@ + quoted(batch.verifying_contract) + ",\"intents\":"@
            + intent_array(batch.intents) + "}"@,
{
    let head = "{\"signer_id\":"@ + quoted(batch.signer_id);
    assert(head + optional_text(",\"deadline\":"@, batch.deadline) =~= head);
}

/// A hash that does not begin with `0x` is malformed, whatever follows.
pub proof fn hash_without_prefix_is_malformed(hash: Seq<char>)
    requires
        encode_utf8(hash).len() < 2 || encode_utf8(hash)[0] != 0x30 || encode_utf8(hash)[1] != 0x78,
    ensures
        claimed_hash(hash) == Err::<Seq<u8>, ProxyError>(ProxyError::MalformedHash),
{
}

/// A rebalancing is accepted only from an agent that may act for the
/// portfolio, only for a batch that the agent's flow allows, and only with
/// the hash of that very batch.
pub proof fn accepted_rebalancing_was_checked(
    state: ContractView,
    agent_id: Seq<char>,
    user_portfolio: Seq<char>,
    hash: Seq<char>,
    batch: DefuseIntentsView,
)
    requires
        balance_refusal(state, agent_id, user_portfolio, hash, batch) is None,
    ensures
        can_act(state, agent_id, user_portfolio, Flow::AgentInitiated),
        batch_allowed(batch, Flow::AgentInitiated),
        claimed_hash(hash) == Ok::<Seq<u8>, ProxyError>(batch_hash(batch)),
{
}

} // verus!
