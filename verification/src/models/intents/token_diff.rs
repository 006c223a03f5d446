//! The rebalancing intent: signed deltas per token.

use super::tokens::TokenAmounts;
use crate::outside::index_map_entries;
use indexmap::IndexMap;
use std::collections::BTreeMap;
use vstd::prelude::*;

verus! {

pub type TokenDeltas = TokenAmounts<BTreeMap<String, i128>>;

/// Deltas per token, each a decimal string, in the order in which they were
/// given. That order is part of what gets hashed.
#[derive(Debug)]
pub struct TokenDiff {
    pub diff: IndexMap<String, String>,
    pub memo: Option<String>,
    pub referral: Option<String>,
}

pub struct TokenDiffView {
    pub diff: Seq<(Seq<char>, Seq<char>)>,
    pub memo: Option<Seq<char>>,
    pub referral: Option<Seq<char>>,
}

impl View for TokenDiff {
    type V = TokenDiffView;

    open spec fn view(&self) -> TokenDiffView {
        TokenDiffView {
            diff: index_map_entries(self.diff),
            memo: self.memo.deep_view(),
            referral: self.referral.deep_view(),
        }
    }
}

impl core::ops::Deref for TokenDiff {
    type Target = IndexMap<String, String>;

    fn deref(&self) -> (diff: &IndexMap<String, String>)
        ensures
            *diff == self.diff,
    {
        &self.diff
    }
}

} // verus!
