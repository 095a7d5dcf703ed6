use crate::pubkey::Pubkey;
use vstd::prelude::*;

verus! {

/// A handle on one account, as the runtime presents it to the program: its
/// identity, whether it signed, its balance and its bytes.
///
/// Handles are values of their own. Where the caller lists one account in
/// two places, a change reaches the handle in the place that the operation
/// names, and no other.
#[derive(Debug)]
pub struct AccountInfo {
    pub key: Pubkey,
    pub is_signer: bool,
    pub lamports: u64,
    pub data: Vec<u8>,
}

/// A handle as a mathematical value.
pub struct AccountView {
    pub key: Seq<u8>,
    pub is_signer: bool,
    pub lamports: u64,
    pub data: Seq<u8>,
}

impl View for AccountInfo {
    type V = AccountView;

    open spec fn view(&self) -> AccountView {
        AccountView {
            key: self.key@,
            is_signer: self.is_signer,
            lamports: self.lamports,
            data: self.data@,
        }
    }
}

/// The handles of a list, each as a mathematical value.
pub open spec fn views(accounts: Seq<AccountInfo>) -> Seq<AccountView> {
    Seq::new(accounts.len(), |i: int| accounts[i]@)
}

impl AccountInfo {
    pub fn new(key: Pubkey, is_signer: bool, lamports: u64, data: Vec<u8>) -> (account: AccountInfo)
        ensures
            account@ == (AccountView { key: key@, is_signer, lamports, data: data@ }),
    {
        AccountInfo { key, is_signer, lamports, data }
    }
}

} // verus!
