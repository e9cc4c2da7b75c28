//! The shared state cache: account records, storage slots, contract bodies
//! and block hashes, each in its own sharded map.
use crate::account::{code_view, AccountChange, AccountInfo, AccountState, DbAccount};
use crate::maps::{
    account_entries, accounts_get, accounts_insert, accounts_new, block_hash_entries,
    block_hashes_get, block_hashes_insert, block_hashes_new, contract_entries, contracts_get,
    contracts_insert, contracts_insert_if_absent, contracts_len, contracts_new, slot_entries,
    slots_clear_account, slots_get, slots_insert, slots_new, without_account, AccountMap,
    BlockHashMap, ContractMap, SlotMap,
};
use crate::primitives::{empty_code_hash, is_zero, keccak, keccak_of, word_eq, Address, B256, U256};
use vstd::prelude::*;

verus! {

/// The contents of a cache.
pub ghost struct CacheModel {
    pub accounts: Map<Address, DbAccount>,
    pub slots: Map<(Address, U256), U256>,
    pub contracts: Map<B256, Seq<u8>>,
    pub block_hashes: Map<u64, B256>,
}

/// Whether the code is present and non-empty.
pub open spec fn has_code(code: Option<Seq<u8>>) -> bool {
    code is Some && code->Some_0.len() > 0
}

/// The hash under which a non-empty code body is registered: an account
/// whose hash is zero or the empty-code hash gets the body's own hash.
pub open spec fn registered_hash(h: B256, code: Option<Seq<u8>>) -> B256 {
    if has_code(code) && (h == (0u128, 0u128) || h == empty_code_hash()) {
        keccak_of(code->Some_0)
    } else {
        h
    }
}

/// The hash an account refers to once its code is registered: the hash its
/// body is registered under; without code, a zero hash becomes the
/// empty-code hash.
pub open spec fn normalized_hash(h: B256, code: Option<Seq<u8>>) -> B256 {
    if has_code(code) {
        registered_hash(h, code)
    } else if h == (0u128, 0u128) {
        empty_code_hash()
    } else {
        h
    }
}

/// The contract map once the code is registered: a non-empty body is added
/// under its hash unless that hash is already present.
pub open spec fn contracts_with(m: Map<B256, Seq<u8>>, h: B256, code: Option<Seq<u8>>) -> Map<B256, Seq<u8>> {
    if has_code(code) && !m.contains_key(registered_hash(h, code)) {
        m.insert(registered_hash(h, code), code->Some_0)
    } else {
        m
    }
}

/// The slots of `s` extended by the changed slots of one account, later
/// entries winning.
pub open spec fn with_slots(s: Map<(Address, U256), U256>, address: Address, d: Seq<(U256, U256)>) -> Map<(Address, U256), U256>
    decreases d.len(),
{
    if d.len() == 0 {
        s
    } else {
        with_slots(s, address, d.drop_last()).insert((address, d.last().0), d.last().1)
    }
}

/// The state an ordinary (not created, not destroyed) change leaves: a
/// cleared storage stays cleared, anything else becomes touched.
pub open spec fn touched_state(m: CacheModel, address: Address) -> AccountState {
    if m.accounts.contains_key(address) && m.accounts[address].account_state == AccountState::StorageCleared {
        AccountState::StorageCleared
    } else {
        AccountState::Touched
    }
}

/// The cache after folding in the change to one account.
pub open spec fn commit_account(m: CacheModel, c: AccountChange) -> CacheModel {
    let a = c.address;
    if !c.touched {
        m
    } else if c.selfdestructed {
        CacheModel {
            accounts: m.accounts.insert(
                a,
                DbAccount { info: AccountInfo::empty_spec(), account_state: AccountState::NotExisting },
            ),
            slots: without_account(m.slots, a),
            ..m
        }
    } else {
        let code = code_view(c.code);
        let info = AccountInfo { code_hash: normalized_hash(c.info.code_hash, code), ..c.info };
        let state = if c.created { AccountState::StorageCleared } else { touched_state(m, a) };
        let base = if c.created { without_account(m.slots, a) } else { m.slots };
        CacheModel {
            accounts: m.accounts.insert(a, DbAccount { info, account_state: state }),
            slots: with_slots(base, a, c.storage@),
            contracts: contracts_with(m.contracts, c.info.code_hash, code),
            ..m
        }
    }
}

/// The cache after folding in a whole state diff, account by account.
pub open spec fn commit_all(m: CacheModel, cs: Seq<AccountChange>) -> CacheModel
    decreases cs.len(),
{
    if cs.len() == 0 {
        m
    } else {
        commit_account(commit_all(m, cs.drop_last()), cs.last())
    }
}

/// Every cached slot belongs to a cached account.
pub open spec fn slots_owned(m: CacheModel) -> bool {
    forall|k: (Address, U256)| #[trigger] m.slots.contains_key(k) ==> m.accounts.contains_key(k.0)
}

/// Extending one account's slots adds keys of that account only.
pub proof fn lemma_with_slots_keys(s: Map<(Address, U256), U256>, address: Address, d: Seq<(U256, U256)>)
    ensures
        forall|k: (Address, U256)| #[trigger] with_slots(s, address, d).contains_key(k) ==> s.contains_key(k) || k.0 == address,
    decreases d.len(),
{
    if d.len() > 0 {
        lemma_with_slots_keys(s, address, d.drop_last());
        assert forall|k: (Address, U256)| #[trigger] with_slots(s, address, d).contains_key(k) implies s.contains_key(k)
            || k.0 == address by {
            if k != (address, d.last().0) {
                assert(with_slots(s, address, d.drop_last()).contains_key(k));
            }
        }
    }
}

/// A cache that can be shared between threads and read concurrently.
pub struct ConcurrentCache {
    accounts: AccountMap,
    slots: SlotMap,
    contracts: ContractMap,
    block_hashes: BlockHashMap,
    empty_hash: B256,
}

impl View for ConcurrentCache {
    type V = CacheModel;

    closed spec fn view(&self) -> CacheModel {
        CacheModel {
            accounts: account_entries(self.accounts),
            slots: slot_entries(self.slots),
            contracts: contract_entries(self.contracts),
            block_hashes: block_hash_entries(self.block_hashes),
        }
    }
}

impl ConcurrentCache {
    /// The cache remembers the canonical empty-code hash.
    pub closed spec fn wf(&self) -> bool {
        &&& self.empty_hash == empty_code_hash()
        &&& slots_owned(self@)
    }

    /// In a well-formed cache every slot belongs to a cached account.
    pub proof fn lemma_slots_owned(&self)
        requires
            self.wf(),
        ensures
            slots_owned(self@),
    {
    }

    /// An empty cache.
    pub fn new() -> (r: ConcurrentCache)
        ensures
            r.wf(),
            r@.accounts == Map::<Address, DbAccount>::empty(),
            r@.slots == Map::<(Address, U256), U256>::empty(),
            r@.contracts == Map::<B256, Seq<u8>>::empty(),
            r@.block_hashes == Map::<u64, B256>::empty(),
    {
        let empty: Vec<u8> = Vec::new();
        let empty_hash = keccak(&empty);
        proof {
            assert(empty@ =~= Seq::<u8>::empty());
        }
        let r = ConcurrentCache {
            accounts: accounts_new(),
            slots: slots_new(),
            contracts: contracts_new(),
            block_hashes: block_hashes_new(),
            empty_hash,
        };
        r
    }

    /// The canonical hash of empty code.
    pub fn empty_hash(&self) -> (r: B256)
        requires
            self.wf(),
        ensures
            r == empty_code_hash(),
    {
        self.empty_hash
    }

    /// Registers the account's code under its hash, if the code is present
    /// and non-empty and the hash is not yet known, and normalizes the
    /// account's code hash.
    pub fn insert_contract(&mut self, info: &mut AccountInfo, code: &Option<Vec<u8>>)
        requires
            old(self).wf(),
        ensures
            final(self).wf(),
            final(self)@ == (CacheModel {
                contracts: contracts_with(old(self)@.contracts, old(info).code_hash, code_view(*code)),
                ..old(self)@
            }),
            *final(info) == (AccountInfo {
                code_hash: normalized_hash(old(info).code_hash, code_view(*code)),
                ..*old(info)
            }),
    {
        let ghost m0 = self@;
        let mut registered = false;
        if let Some(c) = code {
            if c.len() > 0 {
                if is_zero(&info.code_hash) || word_eq(&info.code_hash, &self.empty_hash) {
                    info.code_hash = keccak(c);
                }
                contracts_insert_if_absent(&mut self.contracts, info.code_hash, c);
                registered = true;
            }
        }
        if !registered && is_zero(&info.code_hash) {
            info.code_hash = self.empty_hash;
        }
        proof {
            assert(self@.slots == m0.slots && self@.accounts == m0.accounts);
            assert(slots_owned(self@));
        }
    }

    /// Stores the account's information, registering its code, without
    /// touching the account's storage.
    pub fn insert_account_info(&mut self, address: Address, info: AccountInfo, code: &Option<Vec<u8>>)
        requires
            old(self).wf(),
        ensures
            final(self).wf(),
            ({
                let prior = if old(self)@.accounts.contains_key(address) {
                    old(self)@.accounts[address].account_state
                } else {
                    AccountState::Fresh
                };
                let stored = AccountInfo { code_hash: normalized_hash(info.code_hash, code_view(*code)), ..info };
                final(self)@ == (CacheModel {
                    accounts: old(self)@.accounts.insert(address, DbAccount { info: stored, account_state: prior }),
                    contracts: contracts_with(old(self)@.contracts, info.code_hash, code_view(*code)),
                    ..old(self)@
                })
            }),
    {
        let mut info = info;
        self.insert_contract(&mut info, code);
        let state = match accounts_get(&self.accounts, &address) {
            Some(acc) => acc.account_state,
            None => AccountState::Fresh,
        };
        accounts_insert(&mut self.accounts, address, DbAccount { info, account_state: state });
    }

    /// The cached record of an account, if any.
    pub fn account(&self, address: &Address) -> (r: Option<DbAccount>)
        ensures
            r == (if self@.accounts.contains_key(*address) { Some(self@.accounts[*address]) } else { None }),
    {
        accounts_get(&self.accounts, address)
    }

    /// The cached value of a slot, if any.
    pub fn slot(&self, address: Address, index: U256) -> (r: Option<U256>)
        ensures
            r == (if self@.slots.contains_key((address, index)) { Some(self@.slots[(address, index)]) } else { None }),
    {
        slots_get(&self.slots, &(address, index))
    }

    /// The cached code body under a hash, if any.
    pub fn contract(&self, hash: &B256) -> (r: Option<Vec<u8>>)
        ensures
            r is Some == self@.contracts.contains_key(*hash),
            r is Some ==> r->Some_0@ == self@.contracts[*hash],
    {
        contracts_get(&self.contracts, hash)
    }

    /// The number of distinct code bodies held.
    pub fn contract_count(&self) -> (r: usize)
        ensures
            r as nat == self@.contracts.dom().len(),
    {
        contracts_len(&self.contracts)
    }

    /// The cached hash of a block, if any.
    pub fn block_hash(&self, number: u64) -> (r: Option<B256>)
        ensures
            r == (if self@.block_hashes.contains_key(number) { Some(self@.block_hashes[number]) } else { None }),
    {
        block_hashes_get(&self.block_hashes, number)
    }

    /// Stores an account record fetched from the backing store.
    pub(crate) fn put_account(&mut self, address: Address, acc: DbAccount)
        ensures
            old(self).wf() ==> final(self).wf(),
            final(self)@ == (CacheModel { accounts: old(self)@.accounts.insert(address, acc), ..old(self)@ }),
    {
        accounts_insert(&mut self.accounts, address, acc);
    }

    /// Stores a slot value fetched from the backing store.
    pub(crate) fn put_slot(&mut self, address: Address, index: U256, value: U256)
        requires
            old(self)@.accounts.contains_key(address),
        ensures
            old(self).wf() ==> final(self).wf(),
            final(self)@ == (CacheModel { slots: old(self)@.slots.insert((address, index), value), ..old(self)@ }),
    {
        slots_insert(&mut self.slots, (address, index), value);
    }

    /// Stores a code body fetched from the backing store.
    pub(crate) fn put_contract(&mut self, hash: B256, code: Vec<u8>)
        ensures
            old(self).wf() ==> final(self).wf(),
            final(self)@ == (CacheModel { contracts: old(self)@.contracts.insert(hash, code@), ..old(self)@ }),
    {
        contracts_insert(&mut self.contracts, hash, code);
    }

    /// Stores a block hash fetched from the backing store.
    pub(crate) fn put_block_hash(&mut self, number: u64, hash: B256)
        ensures
            old(self).wf() ==> final(self).wf(),
            final(self)@ == (CacheModel { block_hashes: old(self)@.block_hashes.insert(number, hash), ..old(self)@ }),
    {
        block_hashes_insert(&mut self.block_hashes, number, hash);
    }

    /// Folds the change to one account into the cache.
    pub fn commit_change(&mut self, c: &AccountChange)
        requires
            old(self).wf(),
        ensures
            final(self).wf(),
            final(self)@ == commit_account(old(self)@, *c),
    {
        if !c.touched {
            return;
        }
        let a = c.address;
        if c.selfdestructed {
            slots_clear_account(&mut self.slots, a);
            accounts_insert(
                &mut self.accounts,
                a,
                DbAccount { info: AccountInfo::empty(self.empty_hash), account_state: AccountState::NotExisting },
            );
            return;
        }
        let ghost m0 = self@;
        let mut info = c.info;
        self.insert_contract(&mut info, &c.code);
        let state = if c.created {
            slots_clear_account(&mut self.slots, a);
            AccountState::StorageCleared
        } else {
            match accounts_get(&self.accounts, &a) {
                Some(acc) => if acc.account_state == AccountState::StorageCleared {
                    AccountState::StorageCleared
                } else {
                    AccountState::Touched
                },
                None => AccountState::Touched,
            }
        };
        accounts_insert(&mut self.accounts, a, DbAccount { info, account_state: state });
        let ghost m1 = self@;
        let ghost base = m1.slots;
        proof {
            lemma_with_slots_keys(base, a, c.storage@);
        }
        let mut i: usize = 0;
        while i < c.storage.len()
            invariant
                i <= c.storage.len(),
                self.empty_hash == empty_code_hash(),
                slots_owned(m1),
                m1.accounts.contains_key(a),
                self@.accounts == m1.accounts,
                self@.contracts == m1.contracts,
                self@.block_hashes == m1.block_hashes,
                slot_entries(self.slots) == with_slots(base, a, c.storage@.take(i as int)),
            decreases c.storage.len() - i,
        {
            let (k, v) = c.storage[i];
            proof {
                assert(c.storage@.take(i as int + 1).drop_last() =~= c.storage@.take(i as int));
            }
            slots_insert(&mut self.slots, (a, k), v);
            i = i + 1;
            proof {
                lemma_with_slots_keys(base, a, c.storage@.take(i as int));
            }
        }
        proof {
            assert(c.storage@.take(i as int) =~= c.storage@);
            assert(self@ == commit_account(m0, *c));
        }
    }

    /// Folds a whole state diff into the cache, account by account. Never
    /// reaches a backing store.
    pub fn commit(&mut self, changes: &Vec<AccountChange>)
        requires
            old(self).wf(),
        ensures
            final(self).wf(),
            final(self)@ == commit_all(old(self)@, changes@),
    {
        let ghost m0 = self@;
        let mut i: usize = 0;
        while i < changes.len()
            invariant
                i <= changes.len(),
                self.wf(),
                self@ == commit_all(m0, changes@.take(i as int)),
            decreases changes.len() - i,
        {
            proof {
                assert(changes@.take(i as int + 1).drop_last() =~= changes@.take(i as int));
            }
            self.commit_change(&changes[i]);
            i = i + 1;
        }
        proof {
            assert(changes@.take(i as int) =~= changes@);
        }
    }
}

} // verus!
