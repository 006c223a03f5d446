//! What the proxy keeps for each agent.

use super::store::AccountSet;
use vstd::prelude::*;

verus! {

/// The record of one agent.
pub struct AgentInfo {
    /// The owners on whose behalf the agent may act.
    pub portfolios: AccountSet,
}

impl View for AgentInfo {
    type V = Seq<Seq<char>>;

    open spec fn view(&self) -> Seq<Seq<char>> {
        self.portfolios@
    }
}

} // verus!
