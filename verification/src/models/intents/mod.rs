//! Intents: what a signer asks to have done with their tokens.

pub mod token_diff;
pub mod tokens;

use crate::models::contract::Flow;
use crate::models::error::ProxyError;
use token_diff::{TokenDiff, TokenDiffView};
use tokens::{
    FtWithdraw, FtWithdrawView, MtWithdraw, MtWithdrawView, NativeWithdraw, NativeWithdrawView,
    NftWithdraw, NftWithdrawView,
};
use vstd::prelude::*;
use vstd::std_specs::convert::FromSpecImpl;

verus! {

/// A batch of intents with the data that makes it signable.
#[derive(Debug)]
pub struct DefuseIntents {
    pub signer_id: String,
    pub deadline: Option<String>,
    pub nonce: String,
    pub verifying_contract: String,
    pub intents: Vec<Intent>,
}

/// One thing that a signer asks for: a withdrawal of one of four kinds, or a
/// token diff.
#[derive(Debug)]
pub enum Intent {
    FtWithdraw(FtWithdraw),
    NftWithdraw(NftWithdraw),
    MtWithdraw(MtWithdraw),
    NativeWithdraw(NativeWithdraw),
    TokenDiff(TokenDiff),
}

/// An intent on its own.
pub struct MetaIntent {
    pub intent: Intent,
}

pub enum IntentView {
    FtWithdraw(FtWithdrawView),
    NftWithdraw(NftWithdrawView),
    MtWithdraw(MtWithdrawView),
    NativeWithdraw(NativeWithdrawView),
    TokenDiff(TokenDiffView),
}

impl View for Intent {
    type V = IntentView;

    open spec fn view(&self) -> IntentView {
        match self {
            Intent::FtWithdraw(w) => IntentView::FtWithdraw(w@),
            Intent::NftWithdraw(w) => IntentView::NftWithdraw(w@),
            Intent::MtWithdraw(w) => IntentView::MtWithdraw(w@),
            Intent::NativeWithdraw(w) => IntentView::NativeWithdraw(w@),
            Intent::TokenDiff(d) => IntentView::TokenDiff(d@),
        }
    }
}

impl DeepView for Intent {
    type V = IntentView;

    open spec fn deep_view(&self) -> IntentView {
        self.view()
    }
}

pub struct DefuseIntentsView {
    pub signer_id: Seq<char>,
    pub deadline: Option<Seq<char>>,
    pub nonce: Seq<char>,
    pub verifying_contract: Seq<char>,
    pub intents: Seq<IntentView>,
}

impl View for DefuseIntents {
    type V = DefuseIntentsView;

    open spec fn view(&self) -> DefuseIntentsView {
        DefuseIntentsView {
            signer_id: self.signer_id@,
            deadline: self.deadline.deep_view(),
            nonce: self.nonce@,
            verifying_contract: self.verifying_contract@,
            intents: self.intents.deep_view(),
        }
    }
}

impl From<FtWithdraw> for Intent {
    fn from(inner: FtWithdraw) -> (intent: Intent) {
        Intent::FtWithdraw(inner)
    }
}

impl FromSpecImpl<FtWithdraw> for Intent {
    open spec fn obeys_from_spec() -> bool {
        true
    }

    open spec fn from_spec(inner: FtWithdraw) -> Intent {
        Intent::FtWithdraw(inner)
    }
}

impl From<NftWithdraw> for Intent {
    fn from(inner: NftWithdraw) -> (intent: Intent) {
        Intent::NftWithdraw(inner)
    }
}

impl FromSpecImpl<NftWithdraw> for Intent {
    open spec fn obeys_from_spec() -> bool {
        true
    }

    open spec fn from_spec(inner: NftWithdraw) -> Intent {
        Intent::NftWithdraw(inner)
    }
}

impl From<MtWithdraw> for Intent {
    fn from(inner: MtWithdraw) -> (intent: Intent) {
        Intent::MtWithdraw(inner)
    }
}

impl FromSpecImpl<MtWithdraw> for Intent {
    open spec fn obeys_from_spec() -> bool {
        true
    }

    open spec fn from_spec(inner: MtWithdraw) -> Intent {
        Intent::MtWithdraw(inner)
    }
}

impl From<NativeWithdraw> for Intent {
    fn from(inner: NativeWithdraw) -> (intent: Intent) {
        Intent::NativeWithdraw(inner)
    }
}

impl FromSpecImpl<NativeWithdraw> for Intent {
    open spec fn obeys_from_spec() -> bool {
        true
    }

    open spec fn from_spec(inner: NativeWithdraw) -> Intent {
        Intent::NativeWithdraw(inner)
    }
}

impl From<TokenDiff> for Intent {
    fn from(inner: TokenDiff) -> (intent: Intent) {
        Intent::TokenDiff(inner)
    }
}

impl FromSpecImpl<TokenDiff> for Intent {
    open spec fn obeys_from_spec() -> bool {
        true
    }

    open spec fn from_spec(inner: TokenDiff) -> Intent {
        Intent::TokenDiff(inner)
    }
}

/// Whether a flow allows an intent. An agent may only rebalance; an owner may
/// ask for anything.
pub open spec fn intent_allowed(intent: IntentView, flow: Flow) -> bool {
    match flow {
        Flow::AgentInitiated => intent is TokenDiff,
        Flow::OwnerInitiated => true,
    }
}

/// Whether a flow allows every intent of a batch.
pub open spec fn batch_allowed(batch: DefuseIntentsView, flow: Flow) -> bool {
    forall|i: int| 0 <= i < batch.intents.len() ==> intent_allowed(#[trigger] batch.intents[i], flow)
}

impl Intent {
    /// Whether the intent is a token diff, the one kind that rebalances.
    pub fn is_token_diff(&self) -> (yes: bool)
        ensures
            yes == (self@ is TokenDiff),
    {
        match self {
            Intent::TokenDiff(_) => true,
            _ => false,
        }
    }
}

impl DefuseIntents {
    /// Checks the batch against what the flow allows. One intent that is not
    /// allowed refuses the whole batch.
    pub fn validate(&self, flow: Flow) -> (checked: Result<(), ProxyError>)
        ensures
            checked is Ok <==> batch_allowed(self@, flow),
            checked matches Err(e) ==> e == ProxyError::FlowViolation,
    {
        match flow {
            Flow::OwnerInitiated => Ok(()),
            Flow::AgentInitiated => {
                let mut i: usize = 0;
                while i < self.intents.len()
                    invariant
                        i <= self.intents.len(),
                        flow == Flow::AgentInitiated,
                        forall|j: int|
                            0 <= j < i ==> intent_allowed(
                                #[trigger] self@.intents[j],
                                Flow::AgentInitiated,
                            ),
                    decreases self.intents.len() - i,
                {
                    if !self.intents[i].is_token_diff() {
                        assert(!intent_allowed(self@.intents[i as int], Flow::AgentInitiated));
                        return Err(ProxyError::FlowViolation);
                    }
                    i += 1;
                }
                Ok(())
            },
        }
    }
}

} // verus!
