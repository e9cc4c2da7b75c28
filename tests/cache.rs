use evm_pool::account::{AccountChange, AccountInfo, AccountState};
use evm_pool::cache::ConcurrentCache;
use evm_pool::primitives::{Address, B256, U256};
use evm_pool::root::{BackingStore, Root, RootInner};
use std::cell::Cell;
use std::rc::Rc;

const EMPTY_HASH: B256 = (
    0xc5d2460186f7233c927e7db2dcc703c0,
    0xe500b653ca82273b7bfad8045d85a470,
);

/// A backing store where every account exists with nonce 1 and every slot
/// holds 7; it counts its lookups.
struct CountingStore {
    calls: Rc<Cell<usize>>,
}

impl CountingStore {
    fn new() -> Self {
        CountingStore { calls: Rc::new(Cell::new(0)) }
    }
}

impl BackingStore for CountingStore {
    type Error = String;

    fn basic_ref(&self, _address: Address) -> Result<Option<AccountInfo>, String> {
        self.calls.set(self.calls.get() + 1);
        Ok(Some(AccountInfo { balance: (0, 100), nonce: 1, code_hash: EMPTY_HASH }))
    }

    fn code_by_hash_ref(&self, _code_hash: B256) -> Result<Vec<u8>, String> {
        self.calls.set(self.calls.get() + 1);
        Ok(vec![0x60, 0x00])
    }

    fn storage_ref(&self, _address: Address, _index: U256) -> Result<U256, String> {
        self.calls.set(self.calls.get() + 1);
        Ok((0, 7))
    }

    fn block_hash_ref(&self, number: u64) -> Result<B256, String> {
        self.calls.set(self.calls.get() + 1);
        Ok((0, number as u128 + 1000))
    }
}

/// A backing store whose every lookup fails.
struct FailingStore;

impl BackingStore for FailingStore {
    type Error = String;

    fn basic_ref(&self, _address: Address) -> Result<Option<AccountInfo>, String> {
        Err("down".to_string())
    }

    fn code_by_hash_ref(&self, _code_hash: B256) -> Result<Vec<u8>, String> {
        Err("down".to_string())
    }

    fn storage_ref(&self, _address: Address, _index: U256) -> Result<U256, String> {
        Err("down".to_string())
    }

    fn block_hash_ref(&self, _number: u64) -> Result<B256, String> {
        Err("down".to_string())
    }
}

const ALICE: Address = (0, 0xa11ce);
const BOB: Address = (0, 0xb0b);

fn info(nonce: u64) -> AccountInfo {
    AccountInfo { balance: (0, 5), nonce, code_hash: (0, 0) }
}

fn change(address: Address, created: bool, selfdestructed: bool, storage: Vec<(U256, U256)>) -> AccountChange {
    AccountChange {
        address,
        info: info(2),
        code: None,
        touched: true,
        selfdestructed,
        created,
        storage,
    }
}

#[test]
fn empty_hash_is_keccak_of_nothing() {
    let cache = ConcurrentCache::new();
    assert_eq!(cache.empty_hash(), EMPTY_HASH);
}

#[test]
fn insert_contract_twice_keeps_one_entry() {
    let mut cache = ConcurrentCache::new();
    let code = Some(vec![0x60u8, 0x01, 0x60, 0x02]);
    let mut first = AccountInfo { balance: (0, 0), nonce: 0, code_hash: (7, 7) };
    let mut second = first;
    cache.insert_contract(&mut first, &code);
    cache.insert_contract(&mut second, &code);
    assert_eq!(cache.contract_count(), 1);
    assert_eq!(cache.contract(&(7, 7)), Some(vec![0x60u8, 0x01, 0x60, 0x02]));
}

#[test]
fn empty_hash_claim_gets_code_hash() {
    let mut cache = ConcurrentCache::new();
    let code = Some(vec![1u8, 2, 3]);
    let mut acc = AccountInfo { balance: (0, 0), nonce: 0, code_hash: EMPTY_HASH };
    cache.insert_contract(&mut acc, &code);
    assert_ne!(acc.code_hash, EMPTY_HASH);
    assert_ne!(acc.code_hash, (0, 0));
    assert_eq!(cache.contract(&acc.code_hash), Some(vec![1u8, 2, 3]));
    assert_eq!(cache.contract_count(), 1);
}

#[test]
fn zero_hash_becomes_empty_hash() {
    let mut cache = ConcurrentCache::new();
    let mut acc = AccountInfo { balance: (0, 0), nonce: 0, code_hash: (0, 0) };
    cache.insert_contract(&mut acc, &None);
    assert_eq!(acc.code_hash, EMPTY_HASH);
    assert_eq!(cache.contract_count(), 0);
    let mut acc = AccountInfo { balance: (0, 0), nonce: 0, code_hash: (0, 0) };
    cache.insert_contract(&mut acc, &Some(Vec::new()));
    assert_eq!(acc.code_hash, EMPTY_HASH);
    assert_eq!(cache.contract_count(), 0);
}

#[test]
fn created_then_touched_stays_cleared() {
    let mut cache = ConcurrentCache::new();
    cache.commit(&vec![change(ALICE, true, false, vec![((0, 1), (0, 11))])]);
    assert_eq!(cache.account(&ALICE).unwrap().account_state, AccountState::StorageCleared);
    cache.commit(&vec![change(ALICE, false, false, vec![((0, 2), (0, 22))])]);
    assert_eq!(cache.account(&ALICE).unwrap().account_state, AccountState::StorageCleared);
    assert_eq!(cache.slot(ALICE, (0, 1)), Some((0, 11)));
    assert_eq!(cache.slot(ALICE, (0, 2)), Some((0, 22)));
}

#[test]
fn touched_account_becomes_touched() {
    let mut cache = ConcurrentCache::new();
    cache.commit(&vec![change(BOB, false, false, vec![((0, 1), (0, 3)), ((0, 1), (0, 4))])]);
    let acc = cache.account(&BOB).unwrap();
    assert_eq!(acc.account_state, AccountState::Touched);
    assert_eq!(acc.info.code_hash, EMPTY_HASH);
    assert_eq!(cache.slot(BOB, (0, 1)), Some((0, 4)));
}

#[test]
fn untouched_change_is_ignored() {
    let mut cache = ConcurrentCache::new();
    let mut c = change(BOB, false, false, vec![((0, 1), (0, 3))]);
    c.touched = false;
    cache.commit(&vec![c]);
    assert!(cache.account(&BOB).is_none());
    assert_eq!(cache.slot(BOB, (0, 1)), None);
}

#[test]
fn creation_wipes_old_slots() {
    let mut cache = ConcurrentCache::new();
    cache.commit(&vec![change(ALICE, false, false, vec![((0, 1), (0, 3))])]);
    cache.commit(&vec![change(ALICE, true, false, vec![((0, 2), (0, 4))])]);
    assert_eq!(cache.slot(ALICE, (0, 1)), None);
    assert_eq!(cache.slot(ALICE, (0, 2)), Some((0, 4)));
}

#[test]
fn selfdestruct_reads_zero_without_store() {
    let mut root = RootInner::new(CountingStore::new());
    assert_eq!(root.storage(ALICE, (0, 1)), Ok((0, 7)));
    let before = root.cache().account(&ALICE).unwrap();
    assert_eq!(before.account_state, AccountState::Fresh);
    root.commit(&vec![change(ALICE, false, true, Vec::new())]);
    let acc = root.cache().account(&ALICE).unwrap();
    assert_eq!(acc.account_state, AccountState::NotExisting);
    assert_eq!(root.cache().slot(ALICE, (0, 1)), None);
    assert_eq!(root.storage(ALICE, (0, 1)), Ok((0, 0)));
    assert_eq!(root.storage(ALICE, (0, 9)), Ok((0, 0)));
    assert!(matches!(root.basic(ALICE), Ok(None)));
    assert_eq!(root.cache().slot(BOB, (0, 1)), None);
}

#[test]
fn second_read_served_from_cache() {
    let store = CountingStore::new();
    let calls = store.calls.clone();
    let mut root = RootInner::new(store);
    assert_eq!(root.storage(BOB, (0, 3)), Ok((0, 7)));
    assert_eq!(calls.get(), 2);
    assert_eq!(root.storage(BOB, (0, 3)), Ok((0, 7)));
    assert_eq!(calls.get(), 2);
    assert_eq!(root.basic(BOB).unwrap().unwrap().nonce, 1);
    assert_eq!(calls.get(), 2);
    assert_eq!(root.block_hash(5), Ok((0, 1005)));
    assert_eq!(root.block_hash(5), Ok((0, 1005)));
    assert_eq!(calls.get(), 3);
    assert_eq!(root.code_by_hash((1, 1)), Ok(vec![0x60, 0x00]));
    assert_eq!(root.code_by_hash((1, 1)), Ok(vec![0x60, 0x00]));
    assert_eq!(calls.get(), 4);
}

#[test]
fn destroyed_account_costs_no_lookup() {
    let store = CountingStore::new();
    let calls = store.calls.clone();
    let mut root = RootInner::new(store);
    root.commit(&vec![change(ALICE, false, true, Vec::new())]);
    assert_eq!(root.storage(ALICE, (0, 1)), Ok((0, 0)));
    assert_eq!(calls.get(), 0);
}

#[test]
fn failed_lookup_caches_nothing() {
    let mut root = RootInner::new(FailingStore);
    assert!(root.storage(ALICE, (0, 1)).is_err());
    assert!(root.basic(ALICE).is_err());
    assert!(root.block_hash(1).is_err());
    assert!(root.cache().account(&ALICE).is_none());
    assert!(root.cache().block_hash(1).is_none());
}

#[test]
fn children_are_isolated() {
    let mut root = Root::new(CountingStore::new());
    let mut c1 = root.child();
    let mut c2 = root.child();
    c1.commit(&vec![change(ALICE, false, false, vec![((0, 1), (0, 111))])]);
    c2.commit(&vec![change(ALICE, false, false, vec![((0, 1), (0, 222))])]);
    assert_eq!(c1.storage(root.deref_mut(), ALICE, (0, 1)), Ok((0, 111)));
    assert_eq!(c2.storage(root.deref_mut(), ALICE, (0, 1)), Ok((0, 222)));
    assert_eq!(c1.storage(root.deref_mut(), ALICE, (0, 2)), Ok((0, 7)));
    let shared = root.deref().cache().account(&ALICE).unwrap();
    assert_eq!(shared.account_state, AccountState::Fresh);
    assert_eq!(shared.info.nonce, 1);
    assert_eq!(root.deref().cache().slot(ALICE, (0, 1)), None);
    assert_eq!(root.deref().cache().slot(ALICE, (0, 2)), Some((0, 7)));
    let mut c3 = root.child();
    assert_eq!(c3.storage(root.deref_mut(), ALICE, (0, 1)), Ok((0, 7)));
}

#[test]
fn child_reads_through_root_cache() {
    let mut root = Root::new(CountingStore::new());
    root.deref_mut().commit(&vec![change(BOB, true, false, vec![((0, 4), (0, 44))])]);
    let mut child = root.child();
    assert_eq!(child.storage(root.deref_mut(), BOB, (0, 4)), Ok((0, 44)));
    assert_eq!(child.storage_ref(root.deref(), BOB, (0, 5)), Ok((0, 0)));
    assert_eq!(child.storage_ref(root.deref(), ALICE, (0, 5)), Ok((0, 7)));
    assert_eq!(child.basic(root.deref_mut(), BOB).unwrap().unwrap().nonce, 2);
}

#[test]
fn children_share_root_fetches() {
    let store = CountingStore::new();
    let calls = store.calls.clone();
    let mut root = Root::new(store);
    let mut c1 = root.child();
    let mut c2 = root.child();
    assert_eq!(c1.storage(root.deref_mut(), ALICE, (0, 3)), Ok((0, 7)));
    assert_eq!(calls.get(), 2);
    assert_eq!(root.deref().cache().slot(ALICE, (0, 3)), Some((0, 7)));
    assert_eq!(c2.storage(root.deref_mut(), ALICE, (0, 3)), Ok((0, 7)));
    assert_eq!(calls.get(), 2);
    assert_eq!(c2.block_hash(root.deref_mut(), 9), Ok((0, 1009)));
    assert_eq!(c1.block_hash(root.deref_mut(), 9), Ok((0, 1009)));
    assert_eq!(calls.get(), 3);
}

#[test]
fn zero_hash_with_code_gets_code_hash() {
    let mut cache = ConcurrentCache::new();
    let code = Some(vec![1u8, 2, 3]);
    let mut a = AccountInfo { balance: (0, 0), nonce: 0, code_hash: (0, 0) };
    let mut b = AccountInfo { balance: (0, 0), nonce: 0, code_hash: EMPTY_HASH };
    cache.insert_contract(&mut a, &code);
    cache.insert_contract(&mut b, &code);
    assert_ne!(a.code_hash, (0, 0));
    assert_eq!(a.code_hash, b.code_hash);
    assert_eq!(cache.contract(&a.code_hash), Some(vec![1u8, 2, 3]));
    assert_eq!(cache.contract(&(0, 0)), None);
    assert_eq!(cache.contract_count(), 1);
}

#[test]
fn destroyed_record_has_empty_code_hash() {
    let mut cache = ConcurrentCache::new();
    cache.commit(&vec![change(ALICE, false, true, Vec::new())]);
    assert_eq!(cache.account(&ALICE).unwrap().info.code_hash, EMPTY_HASH);
}

#[test]
fn touched_after_destruction_becomes_touched() {
    let mut cache = ConcurrentCache::new();
    cache.commit(&vec![change(ALICE, false, true, Vec::new())]);
    assert_eq!(cache.account(&ALICE).unwrap().account_state, AccountState::NotExisting);
    cache.commit(&vec![change(ALICE, false, false, vec![((0, 1), (0, 5))])]);
    assert_eq!(cache.account(&ALICE).unwrap().account_state, AccountState::Touched);
    assert_eq!(cache.slot(ALICE, (0, 1)), Some((0, 5)));
}

#[test]
fn child_reads_own_write_without_lookup() {
    let store = CountingStore::new();
    let calls = store.calls.clone();
    let mut root = Root::new(store);
    let mut child = root.child();
    child.commit(&vec![change(ALICE, false, false, vec![((0, 1), (0, 9))])]);
    assert_eq!(child.storage(root.deref_mut(), ALICE, (0, 1)), Ok((0, 9)));
    assert_eq!(calls.get(), 0);
}
