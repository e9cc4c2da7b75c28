//! The sharded concurrent maps that hold the shared cache, seen through
//! their contents.
use crate::account::DbAccount;
use crate::primitives::{address_eq, Address, B256, U256};
use dashmap::DashMap;
use vstd::prelude::*;

verus! {

#[verifier::external_type_specification]
#[verifier::external_body]
#[verifier::reject_recursive_types(K)]
#[verifier::reject_recursive_types(V)]
#[verifier::reject_recursive_types(S)]
pub struct ExDashMap<K, V, S>(DashMap<K, V, S>);

/// Address to cached account record.
pub type AccountMap = DashMap<Address, DbAccount>;

/// (address, slot index) to slot value.
pub type SlotMap = DashMap<(Address, U256), U256>;

/// Code hash to code body.
pub type ContractMap = DashMap<B256, Vec<u8>>;

/// Block number to block hash.
pub type BlockHashMap = DashMap<u64, B256>;

/// What an account map holds.
pub uninterp spec fn account_entries(m: AccountMap) -> Map<Address, DbAccount>;

/// What a slot map holds.
pub uninterp spec fn slot_entries(m: SlotMap) -> Map<(Address, U256), U256>;

/// What a contract map holds, each body by its bytes.
pub uninterp spec fn contract_entries(m: ContractMap) -> Map<B256, Seq<u8>>;

/// What a block-hash map holds.
pub uninterp spec fn block_hash_entries(m: BlockHashMap) -> Map<u64, B256>;

/// The slots of `s` that belong to accounts other than `address`.
pub open spec fn without_account(s: Map<(Address, U256), U256>, address: Address) -> Map<(Address, U256), U256> {
    s.restrict(s.dom().filter(|k: (Address, U256)| k.0 != address))
}

/// Whether a slot key belongs to an account other than `address`.
pub fn of_other_account(k: &(Address, U256), address: &Address) -> (r: bool)
    ensures
        r == (k.0 != *address),
{
    !address_eq(&k.0, address)
}

/// Relies on dashmap::DashMap::new: a new map is empty.
#[verifier::external_body]
pub(crate) fn accounts_new() -> (r: AccountMap)
    ensures
        account_entries(r) =~= Map::empty(),
{
    DashMap::new()
}

/// Relies on dashmap::DashMap::get: the value under the key, if any.
#[verifier::external_body]
pub(crate) fn accounts_get(m: &AccountMap, k: &Address) -> (r: Option<DbAccount>)
    ensures
        r == (if account_entries(*m).contains_key(*k) { Some(account_entries(*m)[*k]) } else { None }),
{
    m.get(k).map(|e| *e.value())
}

/// Relies on dashmap::DashMap::insert: the key now maps to the value.
#[verifier::external_body]
pub(crate) fn accounts_insert(m: &mut AccountMap, k: Address, v: DbAccount)
    ensures
        account_entries(*final(m)) == account_entries(*old(m)).insert(k, v),
{
    m.insert(k, v);
}

/// Relies on dashmap::DashMap::new: a new map is empty.
#[verifier::external_body]
pub(crate) fn slots_new() -> (r: SlotMap)
    ensures
        slot_entries(r) =~= Map::empty(),
{
    DashMap::new()
}

/// Relies on dashmap::DashMap::get: the value under the key, if any.
#[verifier::external_body]
pub(crate) fn slots_get(m: &SlotMap, k: &(Address, U256)) -> (r: Option<U256>)
    ensures
        r == (if slot_entries(*m).contains_key(*k) { Some(slot_entries(*m)[*k]) } else { None }),
{
    m.get(k).map(|e| *e.value())
}

/// Relies on dashmap::DashMap::insert: the key now maps to the value.
#[verifier::external_body]
pub(crate) fn slots_insert(m: &mut SlotMap, k: (Address, U256), v: U256)
    ensures
        slot_entries(*final(m)) == slot_entries(*old(m)).insert(k, v),
{
    m.insert(k, v);
}

/// Relies on dashmap::DashMap::retain: exactly the entries the predicate
/// keeps remain, here those of other accounts.
#[verifier::external_body]
pub(crate) fn slots_clear_account(m: &mut SlotMap, address: Address)
    ensures
        slot_entries(*final(m)) == without_account(slot_entries(*old(m)), address),
{
    m.retain(|k, _| of_other_account(k, &address));
}

/// Relies on dashmap::DashMap::new: a new map is empty.
#[verifier::external_body]
pub(crate) fn contracts_new() -> (r: ContractMap)
    ensures
        contract_entries(r) =~= Map::empty(),
{
    DashMap::new()
}

/// Relies on dashmap::DashMap::get: a copy of the body under the hash, if any.
#[verifier::external_body]
pub(crate) fn contracts_get(m: &ContractMap, k: &B256) -> (r: Option<Vec<u8>>)
    ensures
        r is Some == contract_entries(*m).contains_key(*k),
        r is Some ==> r->Some_0@ == contract_entries(*m)[*k],
{
    m.get(k).map(|e| e.value().clone())
}

/// Relies on dashmap::DashMap::entry with Entry::or_insert: the body is
/// stored under the hash only where the hash is absent.
#[verifier::external_body]
pub(crate) fn contracts_insert_if_absent(m: &mut ContractMap, k: B256, v: &Vec<u8>)
    ensures
        contract_entries(*final(m)) == (if contract_entries(*old(m)).contains_key(k) {
            contract_entries(*old(m))
        } else {
            contract_entries(*old(m)).insert(k, v@)
        }),
{
    m.entry(k).or_insert(v.clone());
}

/// Relies on dashmap::DashMap::insert: the key now maps to the body.
#[verifier::external_body]
pub(crate) fn contracts_insert(m: &mut ContractMap, k: B256, v: Vec<u8>)
    ensures
        contract_entries(*final(m)) == contract_entries(*old(m)).insert(k, v@),
{
    m.insert(k, v);
}

/// Relies on dashmap::DashMap::len: the number of entries.
#[verifier::external_body]
pub(crate) fn contracts_len(m: &ContractMap) -> (r: usize)
    ensures
        r as nat == contract_entries(*m).dom().len(),
{
    m.len()
}

/// Relies on dashmap::DashMap::new: a new map is empty.
#[verifier::external_body]
pub(crate) fn block_hashes_new() -> (r: BlockHashMap)
    ensures
        block_hash_entries(r) =~= Map::empty(),
{
    DashMap::new()
}

/// Relies on dashmap::DashMap::get: the value under the key, if any.
#[verifier::external_body]
pub(crate) fn block_hashes_get(m: &BlockHashMap, k: u64) -> (r: Option<B256>)
    ensures
        r == (if block_hash_entries(*m).contains_key(k) { Some(block_hash_entries(*m)[k]) } else { None }),
{
    m.get(&k).map(|e| *e.value())
}

/// Relies on dashmap::DashMap::insert: the key now maps to the value.
#[verifier::external_body]
pub(crate) fn block_hashes_insert(m: &mut BlockHashMap, k: u64, v: B256)
    ensures
        block_hash_entries(*final(m)) == block_hash_entries(*old(m)).insert(k, v),
{
    m.insert(k, v);
}

} // verus!
