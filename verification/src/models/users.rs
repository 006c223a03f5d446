//! What the proxy keeps for each owner of a portfolio.

use super::contract::PortfolioSpread;
use super::intents::token_diff::{TokenDiff, TokenDiffView};
use super::intents::{Intent, IntentView};
use crate::encoding::{push_quoted, push_token_diff, token_diff_json};
use crate::json::{decimal, push_decimal, quoted};
use vstd::prelude::*;
use vstd::string::StringExecFns;

verus! {

/// The record of one owner: the spread that the portfolio should have, the
/// owner's address for intents, and what agents have had signed so far.
pub struct UserInfo {
    /// The share of the portfolio that each token should have.
    pub required_spread: PortfolioSpread,
    pub near_intents_address: String,
    /// One record for each rebalancing that an agent had signed for this
    /// owner, oldest first. Records are only ever added at the end.
    pub activities: Vec<String>,
}

pub struct UserInfoView {
    pub required_spread: Map<Seq<char>, u64>,
    pub near_intents_address: Seq<char>,
    pub activities: Seq<Seq<char>>,
}

impl View for UserInfo {
    type V = UserInfoView;

    open spec fn view(&self) -> UserInfoView {
        UserInfoView {
            required_spread: self.required_spread.deep_view(),
            near_intents_address: self.near_intents_address@,
            activities: self.activities.deep_view(),
        }
    }
}

/// The record of one rebalancing: who asked for it, when, and what it changes.
pub open spec fn activity_json(agent_id: Seq<char>, timestamp: u64, diff: TokenDiffView) -> Seq<
    char,
> {
    "{\"agent_id\":"@ + quoted(agent_id) + ",\"timestamp\":"@ + decimal(timestamp as nat)
        + ",\"diffs\":"@ + token_diff_json(diff) + "}"@
}

/// The records of the token diffs among `intents`, in the order of the intents.
pub open spec fn activity_records(
    agent_id: Seq<char>,
    timestamp: u64,
    intents: Seq<IntentView>,
) -> Seq<Seq<char>>
    decreases intents.len(),
{
    if intents.len() == 0 {
        Seq::empty()
    } else {
        let earlier = activity_records(agent_id, timestamp, intents.drop_last());
        match intents.last() {
            IntentView::TokenDiff(diff) => earlier.push(activity_json(agent_id, timestamp, diff)),
            _ => earlier,
        }
    }
}

/// Writes the record of one rebalancing.
pub fn activity_text(agent_id: &str, timestamp: u64, diff: &TokenDiff) -> (text: String)
    ensures
        text@ == activity_json(agent_id@, timestamp, diff@),
{
    let mut out = String::from_str("{\"agent_id\":");
    push_quoted(&mut out, agent_id);
    out.append(",\"timestamp\":");
    push_decimal(&mut out, timestamp as u128);
    out.append(",\"diffs\":");
    push_token_diff(&mut out, diff);
    out.append("}");
    assert(out@ =~= activity_json(agent_id@, timestamp, diff@));
    out
}

impl Clone for UserInfo {
    fn clone(&self) -> (copy: Self)
        ensures
            copy@ == self@,
    {
        let mut activities: Vec<String> = Vec::new();
        let mut i: usize = 0;
        while i < self.activities.len()
            invariant
                i <= self.activities.len(),
                activities.deep_view() == self.activities.deep_view().take(i as int),
            decreases self.activities.len() - i,
        {
            let ghost before = activities.deep_view();
            activities.push(self.activities[i].clone());
            assert(activities.deep_view() =~= before.push(self.activities[i as int]@));
            assert(self.activities.deep_view().take(i + 1) =~= self.activities.deep_view().take(
                i as int,
            ).push(self.activities[i as int]@));
            i += 1;
        }
        assert(self.activities.deep_view().take(i as int) =~= self.activities.deep_view());
        let required_spread = self.required_spread.clone();
        proof {
            reveal(vstd::std_specs::hash::hash_map_deep_view_impl);
            assert(required_spread.deep_view() =~= self.required_spread.deep_view());
        }
        UserInfo {
            required_spread,
            near_intents_address: self.near_intents_address.clone(),
            activities,
        }
    }
}

impl UserInfo {
    /// Adds a record for each token diff among `intents` to the end of the
    /// activities, in the order of the intents. Nothing else changes.
    pub fn record(&mut self, agent_id: &str, timestamp: u64, intents: &Vec<Intent>)
        ensures
            final(self)@ == (UserInfoView {
                activities: old(self)@.activities + activity_records(
                    agent_id@,
                    timestamp,
                    intents.deep_view(),
                ),
                ..old(self)@
            }),
    {
        let ghost all = intents.deep_view();
        let mut i: usize = 0;
        assert(all.take(0) =~= Seq::<IntentView>::empty());
        assert(self.activities.deep_view() =~= old(self)@.activities + activity_records(
            agent_id@,
            timestamp,
            all.take(0),
        ));
        while i < intents.len()
            invariant
                i <= intents.len(),
                all == intents.deep_view(),
                self.required_spread == old(self).required_spread,
                self.near_intents_address == old(self).near_intents_address,
                self.activities.deep_view() == old(self)@.activities + activity_records(
                    agent_id@,
                    timestamp,
                    all.take(i as int),
                ),
            decreases intents.len() - i,
        {
            let ghost before = self.activities.deep_view();
            proof {
                assert(all.take(i + 1).drop_last() =~= all.take(i as int));
                assert(all.take(i + 1).last() == intents@[i as int]@);
            }
            if let Intent::TokenDiff(token_diff) = &intents[i] {
                let json_str = activity_text(agent_id, timestamp, token_diff);
                self.activities.push(json_str);
                assert(self.activities.deep_view() =~= before.push(json_str@));
            }
            assert(self.activities.deep_view() =~= old(self)@.activities + activity_records(
                agent_id@,
                timestamp,
                all.take(i + 1),
            ));
            i += 1;
        }
        assert(all.take(i as int) =~= all);
    }
}

} // verus!
