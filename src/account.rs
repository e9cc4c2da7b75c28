//! Account records as the cache keeps them, and the per-account changes that
//! a commit folds in.
use crate::primitives::{empty_code_hash, Address, B256, U256};
use vstd::prelude::*;

verus! {

/// How far an account's cached storage can be trusted to be complete.
#[derive(Clone, Copy, Debug, PartialEq, Eq, Structural)]
pub enum AccountState {
    /// Loaded from the backing store and not yet changed.
    Fresh,
    /// Changed by a commit; unmapped slots still come from the backing store.
    Touched,
    /// Storage was wiped (by creation); unmapped slots read as zero.
    StorageCleared,
    /// The account does not exist (never did, or destroyed); slots read as zero.
    NotExisting,
}

impl AccountState {
    /// Whether unmapped slots of the account read as zero.
    pub open spec fn storage_cleared_spec(self) -> bool {
        self == AccountState::StorageCleared || self == AccountState::NotExisting
    }

    /// Whether unmapped slots of the account read as zero.
    pub fn is_storage_cleared(&self) -> (r: bool)
        ensures
            r == self.storage_cleared_spec(),
    {
        match self {
            AccountState::StorageCleared => true,
            AccountState::NotExisting => true,
            _ => false,
        }
    }
}

/// Balance, nonce and a reference to the account's code by its hash.
#[derive(Clone, Copy, Debug)]
pub struct AccountInfo {
    pub balance: U256,
    pub nonce: u64,
    pub code_hash: B256,
}

impl AccountInfo {
    /// The information of an account that does not exist: no balance, no
    /// nonce, empty code.
    pub open spec fn empty_spec() -> AccountInfo {
        AccountInfo { balance: (0, 0), nonce: 0, code_hash: empty_code_hash() }
    }

    /// The information of an account that does not exist, given the
    /// empty-code hash.
    pub fn empty(empty_hash: B256) -> (r: AccountInfo)
        requires
            empty_hash == empty_code_hash(),
        ensures
            r == AccountInfo::empty_spec(),
    {
        AccountInfo { balance: (0, 0), nonce: 0, code_hash: empty_hash }
    }
}

/// A cached account: its information and the state of its storage.
#[derive(Clone, Copy, Debug)]
pub struct DbAccount {
    pub info: AccountInfo,
    pub account_state: AccountState,
}

impl DbAccount {
    /// The record kept for an account the backing store reported.
    pub open spec fn from_fetched(fetched: Option<AccountInfo>) -> DbAccount {
        match fetched {
            Some(info) => DbAccount { info, account_state: AccountState::Fresh },
            None => DbAccount { info: AccountInfo::empty_spec(), account_state: AccountState::NotExisting },
        }
    }

    /// What a read of the account answers: nothing for a missing account.
    pub open spec fn info_spec(self) -> Option<AccountInfo> {
        if self.account_state == AccountState::NotExisting {
            None
        } else {
            Some(self.info)
        }
    }

    /// The record kept for an account the backing store reported.
    pub fn new_fetched(fetched: Option<AccountInfo>, empty_hash: B256) -> (r: DbAccount)
        requires
            empty_hash == empty_code_hash(),
        ensures
            r == DbAccount::from_fetched(fetched),
    {
        match fetched {
            Some(info) => DbAccount { info, account_state: AccountState::Fresh },
            None => DbAccount { info: AccountInfo::empty(empty_hash), account_state: AccountState::NotExisting },
        }
    }

    /// What a read of the account answers: nothing for a missing account.
    pub fn info(&self) -> (r: Option<AccountInfo>)
        ensures
            r == self.info_spec(),
    {
        match self.account_state {
            AccountState::NotExisting => None,
            _ => Some(self.info),
        }
    }
}

/// The change an execution made to one account.
#[derive(Debug)]
pub struct AccountChange {
    pub address: Address,
    /// The account's information after execution.
    pub info: AccountInfo,
    /// The account's code, where execution supplied it.
    pub code: Option<Vec<u8>>,
    /// Whether execution touched the account at all.
    pub touched: bool,
    /// Whether the account destroyed itself.
    pub selfdestructed: bool,
    /// Whether the account was created by this execution.
    pub created: bool,
    /// The present value of each changed slot.
    pub storage: Vec<(U256, U256)>,
}

/// The bytes of an optional code body.
pub open spec fn code_view(code: Option<Vec<u8>>) -> Option<Seq<u8>> {
    match code {
        Some(c) => Some(c@),
        None => None,
    }
}

} // verus!
