//! The four kinds of withdrawal that a batch of intents can ask for.

use std::collections::BTreeMap;
use vstd::prelude::*;

verus! {

/// Amounts held per token.
#[derive(Debug, Clone, Default)]
pub struct TokenAmounts<T = BTreeMap<String, u128>>(pub T);

impl<T> core::ops::Deref for TokenAmounts<T> {
    type Target = T;

    fn deref(&self) -> (amounts: &T)
        ensures
            *amounts == self.0,
    {
        &self.0
    }
}

/// Withdraw a fungible token.
#[derive(Debug, Clone)]
pub struct FtWithdraw {
    pub token: String,
    pub receiver_id: String,
    pub amount: u128,
    pub memo: Option<String>,
    pub msg: Option<String>,
    /// In yoctoNEAR.
    pub storage_deposit: Option<u128>,
}

pub struct FtWithdrawView {
    pub token: Seq<char>,
    pub receiver_id: Seq<char>,
    pub amount: u128,
    pub memo: Option<Seq<char>>,
    pub msg: Option<Seq<char>>,
    pub storage_deposit: Option<u128>,
}

impl View for FtWithdraw {
    type V = FtWithdrawView;

    open spec fn view(&self) -> FtWithdrawView {
        FtWithdrawView {
            token: self.token@,
            receiver_id: self.receiver_id@,
            amount: self.amount,
            memo: self.memo.deep_view(),
            msg: self.msg.deep_view(),
            storage_deposit: self.storage_deposit,
        }
    }
}

/// Withdraw a non-fungible token.
#[derive(Debug, Clone)]
pub struct NftWithdraw {
    pub token: String,
    pub receiver_id: String,
    pub token_id: String,
    pub memo: Option<String>,
    pub msg: Option<String>,
    /// In yoctoNEAR.
    pub storage_deposit: Option<u128>,
}

pub struct NftWithdrawView {
    pub token: Seq<char>,
    pub receiver_id: Seq<char>,
    pub token_id: Seq<char>,
    pub memo: Option<Seq<char>>,
    pub msg: Option<Seq<char>>,
    pub storage_deposit: Option<u128>,
}

impl View for NftWithdraw {
    type V = NftWithdrawView;

    open spec fn view(&self) -> NftWithdrawView {
        NftWithdrawView {
            token: self.token@,
            receiver_id: self.receiver_id@,
            token_id: self.token_id@,
            memo: self.memo.deep_view(),
            msg: self.msg.deep_view(),
            storage_deposit: self.storage_deposit,
        }
    }
}

/// Withdraw several tokens of a multi-token contract.
#[derive(Debug, Clone)]
pub struct MtWithdraw {
    pub token: String,
    pub receiver_id: String,
    pub token_ids: Vec<String>,
    pub amounts: Vec<u128>,
    pub memo: Option<String>,
    pub msg: Option<String>,
    /// In yoctoNEAR.
    pub storage_deposit: Option<u128>,
}

pub struct MtWithdrawView {
    pub token: Seq<char>,
    pub receiver_id: Seq<char>,
    pub token_ids: Seq<Seq<char>>,
    pub amounts: Seq<u128>,
    pub memo: Option<Seq<char>>,
    pub msg: Option<Seq<char>>,
    pub storage_deposit: Option<u128>,
}

impl View for MtWithdraw {
    type V = MtWithdrawView;

    open spec fn view(&self) -> MtWithdrawView {
        MtWithdrawView {
            token: self.token@,
            receiver_id: self.receiver_id@,
            token_ids: self.token_ids.deep_view(),
            amounts: self.amounts@,
            memo: self.memo.deep_view(),
            msg: self.msg.deep_view(),
            storage_deposit: self.storage_deposit,
        }
    }
}

/// Withdraw native NEAR.
#[derive(Debug, Clone)]
pub struct NativeWithdraw {
    pub receiver_id: String,
    /// In yoctoNEAR.
    pub amount: u128,
}

pub struct NativeWithdrawView {
    pub receiver_id: Seq<char>,
    pub amount: u128,
}

impl View for NativeWithdraw {
    type V = NativeWithdrawView;

    open spec fn view(&self) -> NativeWithdrawView {
        NativeWithdrawView { receiver_id: self.receiver_id@, amount: self.amount }
    }
}

} // verus!
