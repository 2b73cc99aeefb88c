//! An account as the state trie holds it.

use vstd::prelude::*;

use crate::code::Bytecode;
use crate::primitives::{Duplicate, B256, U256};

verus! {

/// What the chain knows of an account besides its storage.
#[derive(Debug)]
pub struct AccountInfo {
    pub balance: U256,
    pub nonce: u64,
    pub code_hash: B256,
    /// A hint for the database, carried along.
    pub account_id: Option<u32>,
    /// The code itself, where it is at hand.
    pub code: Option<Bytecode>,
}

/// The model of an `AccountInfo`.
pub struct AccountInfoView {
    pub balance: U256,
    pub nonce: u64,
    pub code_hash: B256,
    pub account_id: Option<u32>,
    pub code: Option<Seq<u8>>,
}

impl DeepView for AccountInfo {
    type V = AccountInfoView;

    open spec fn deep_view(&self) -> AccountInfoView {
        AccountInfoView {
            balance: self.balance,
            nonce: self.nonce,
            code_hash: self.code_hash,
            account_id: self.account_id,
            code: self.code.deep_view(),
        }
    }
}

impl Duplicate for AccountInfo {
    fn duplicate(&self) -> (res: AccountInfo) {
        AccountInfo {
            balance: self.balance,
            nonce: self.nonce,
            code_hash: self.code_hash,
            account_id: self.account_id,
            code: self.code.duplicate(),
        }
    }
}

impl Clone for AccountInfo {
    fn clone(&self) -> (res: AccountInfo)
        ensures
            res.deep_view() == self.deep_view(),
    {
        self.duplicate()
    }
}

/// The model of an account says all there is to it, each part as it is.
pub proof fn account_model_is_complete(info: AccountInfo)
    ensures
        info.deep_view().balance == info.balance,
        info.deep_view().nonce == info.nonce,
        info.deep_view().code_hash == info.code_hash,
        info.deep_view().account_id == info.account_id,
        info.deep_view().code == (match info.code {
            Some(code) => Some(code.deep_view()),
            None => None,
        }),
{
}

} // verus!
