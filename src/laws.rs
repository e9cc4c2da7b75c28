//! Laws of the state cache, stated over the models the operations' own
//! contracts use.
use crate::account::{AccountChange, AccountInfo, AccountState};
use crate::cache::{
    commit_account, commit_all, contracts_with, has_code, normalized_hash, registered_hash, slots_owned, with_slots, CacheModel,
};
use crate::maps::without_account;
use crate::primitives::{Address, B256, U256};
use crate::root::{account_read, cached_account, cached_storage, child_slot_read, slot_read, storage_filled, BackingStore, Lookups};
use vstd::prelude::*;

verus! {

/// Registering the same (hash, code) pair a second time changes nothing,
/// and a non-empty body registered into an empty map makes exactly one entry.
pub proof fn lemma_insert_contract_idempotent(m: Map<B256, Seq<u8>>, h: B256, code: Option<Seq<u8>>)
    ensures
        contracts_with(contracts_with(m, h, code), h, code) == contracts_with(m, h, code),
        code is Some && code->Some_0.len() > 0 ==> contracts_with(Map::empty(), h, code).dom().len() == 1,
        has_code(code) ==> contracts_with(m, h, code).contains_key(normalized_hash(h, code)),
        has_code(code) && !m.contains_key(normalized_hash(h, code)) ==> contracts_with(m, h, code)[normalized_hash(h, code)]
            == code->Some_0,
        has_code(code) && m.contains_key(normalized_hash(h, code)) ==> contracts_with(m, h, code) == m,
{
    if has_code(code) {
        let e = contracts_with(Map::<B256, Seq<u8>>::empty(), h, code);
        let k = crate::cache::registered_hash(h, code);
        assert(e.dom() =~= Set::<B256>::empty().insert(k));
    }
}

/// A created account has cleared storage, and an ordinary change that
/// follows for the same address keeps it cleared.
pub proof fn lemma_storage_clearing_sticky(m: CacheModel, created: AccountChange, touched: AccountChange)
    requires
        created.touched,
        created.created,
        !created.selfdestructed,
        touched.address == created.address,
        touched.touched,
        !touched.created,
        !touched.selfdestructed,
    ensures
        commit_account(m, created).accounts[created.address].account_state == AccountState::StorageCleared,
        commit_account(commit_account(m, created), touched).accounts[created.address].account_state
            == AccountState::StorageCleared,
{
}

/// A destroyed account does not exist, keeps no slot, and every slot of it
/// is answered as zero by the cache alone, without the backing store.
pub proof fn lemma_destroyed_reads_zero(m: CacheModel, c: AccountChange, index: U256)
    requires
        c.touched,
        c.selfdestructed,
    ensures
        commit_account(m, c).accounts[c.address].account_state == AccountState::NotExisting,
        forall|k: U256| !commit_account(m, c).slots.contains_key((c.address, k)),
        cached_storage(commit_account(m, c), c.address, index) == Some((0u128, 0u128)),
{
}

/// After a slot read that went to the backing store, the cache alone
/// answers the same slot with the value that read returned: a second read
/// makes no lookup.
pub proof fn lemma_read_through_memoizes(
    m: CacheModel,
    address: Address,
    index: U256,
    fetched: Option<AccountInfo>,
    value: U256,
)
    requires
        slots_owned(m),
        cached_storage(m, address, index) is None,
        !m.accounts.contains_key(address) && fetched is None ==> value == (0u128, 0u128),
    ensures
        cached_storage(storage_filled(m, address, index, fetched, value), address, index) == Some(value),
{
    if !m.accounts.contains_key(address) {
        assert(!m.slots.contains_key((address, index)));
    }
}

/// Two successive reads of one slot, the first of which succeeded, make at
/// most one account lookup and at most one slot lookup in all: the second
/// read is answered by the cache, with the same value, and changes nothing.
pub proof fn lemma_two_reads_one_lookup<S: BackingStore>(
    store: S,
    address: Address,
    index: U256,
    m0: CacheModel,
    l0: Lookups,
    m1: CacheModel,
    l1: Lookups,
    r1: Result<U256, S::Error>,
    m2: CacheModel,
    l2: Lookups,
    r2: Result<U256, S::Error>,
)
    requires
        slots_owned(m0),
        slot_read(store, m0, l0, m1, l1, address, index, r1),
        r1 is Ok,
        slot_read(store, m1, l1, m2, l2, address, index, r2),
    ensures
        r2 == r1,
        m2 == m1,
        l2 == l1,
        l2.accounts <= l0.accounts + 1,
        l2.slots <= l0.slots + 1,
        l2.codes == l0.codes,
        l2.block_hashes == l0.block_hashes,
{
    let v = r1->Ok_0;
    if cached_storage(m0, address, index) is None && !m0.accounts.contains_key(address) {
        let f = choose|f: Option<AccountInfo>| {
            &&& #[trigger] storage_filled(m0, address, index, f, v) == m1
            &&& store.answers_account(address, Ok::<Option<AccountInfo>, S::Error>(f))
            &&& match f {
                None => v == (0u128, 0u128) && l1 == Lookups { accounts: l0.accounts + 1, ..l0 },
                Some(_) => store.answers_slot(address, index, r1) && l1 == Lookups {
                    accounts: l0.accounts + 1,
                    slots: l0.slots + 1,
                    ..l0
                },
            }
        };
        lemma_read_through_memoizes(m0, address, index, f, v);
    }
}

/// A slot read of a destroyed account answers zero from the cache, makes
/// no lookup and changes nothing.
pub proof fn lemma_destroyed_read_free<S: BackingStore>(
    store: S,
    m: CacheModel,
    c: AccountChange,
    index: U256,
    l0: Lookups,
    m1: CacheModel,
    l1: Lookups,
    r: Result<U256, S::Error>,
)
    requires
        c.touched,
        c.selfdestructed,
        slot_read(store, commit_account(m, c), l0, m1, l1, c.address, index, r),
    ensures
        r == Ok::<U256, S::Error>((0u128, 0u128)),
        l1 == l0,
        m1 == commit_account(m, c),
{
    lemma_destroyed_reads_zero(m, c, index);
}

/// Extending the slots of one account leaves those of every other account
/// as they were.
pub proof fn lemma_with_slots_other(s: Map<(Address, U256), U256>, b: Address, d: Seq<(U256, U256)>, key: (Address, U256))
    requires
        key.0 != b,
    ensures
        with_slots(s, b, d).contains_key(key) == s.contains_key(key),
        s.contains_key(key) ==> with_slots(s, b, d)[key] == s[key],
    decreases d.len(),
{
    if d.len() > 0 {
        lemma_with_slots_other(s, b, d.drop_last(), key);
    }
}

/// A change to one account leaves the record and the slots of every other
/// account as they were.
pub proof fn lemma_commit_other_address(m: CacheModel, c: AccountChange, a: Address, k: U256)
    requires
        c.address != a,
    ensures
        commit_account(m, c).accounts.contains_key(a) == m.accounts.contains_key(a),
        m.accounts.contains_key(a) ==> commit_account(m, c).accounts[a] == m.accounts[a],
        commit_account(m, c).slots.contains_key((a, k)) == m.slots.contains_key((a, k)),
        m.slots.contains_key((a, k)) ==> commit_account(m, c).slots[(a, k)] == m.slots[(a, k)],
{
    let base = if c.created { without_account(m.slots, c.address) } else { m.slots };
    lemma_with_slots_other(base, c.address, c.storage@, (a, k));
    assert(without_account(m.slots, c.address).contains_key((a, k)) == m.slots.contains_key((a, k)));
}

/// The account is destroyed: it does not exist and keeps no slot.
pub open spec fn destroyed(m: CacheModel, a: Address) -> bool {
    &&& m.accounts.contains_key(a)
    &&& m.accounts[a].account_state == AccountState::NotExisting
    &&& m.accounts[a].info == AccountInfo::empty_spec()
    &&& forall|k: U256| !#[trigger] m.slots.contains_key((a, k))
}

/// Where a diff destroys an account and no later change of the diff is to
/// that account, the account ends destroyed, and every slot of it is
/// answered as zero by the cache alone.
pub proof fn lemma_diff_destroys(m: CacheModel, cs: Seq<AccountChange>, i: int, index: U256)
    requires
        0 <= i < cs.len(),
        cs[i].touched,
        cs[i].selfdestructed,
        forall|j: int| i < j < cs.len() ==> (#[trigger] cs[j]).address != cs[i].address,
    ensures
        destroyed(commit_all(m, cs), cs[i].address),
        cached_storage(commit_all(m, cs), cs[i].address, index) == Some((0u128, 0u128)),
    decreases cs.len(),
{
    let a = cs[i].address;
    let prev = commit_all(m, cs.drop_last());
    if i == cs.len() - 1 {
        assert(cs.last() == cs[i]);
        lemma_destroyed_reads_zero(prev, cs[i], index);
    } else {
        assert(cs.drop_last()[i] == cs[i]);
        assert forall|j: int| i < j < cs.drop_last().len() implies (#[trigger] cs.drop_last()[j]).address != a by {
            assert(cs.drop_last()[j] == cs[j]);
        }
        lemma_diff_destroys(m, cs.drop_last(), i, index);
        assert(cs.last() == cs[cs.len() - 1]);
        let next = commit_all(m, cs);
        assert forall|k: U256| !#[trigger] next.slots.contains_key((a, k)) by {
            lemma_commit_other_address(prev, cs.last(), a, k);
        }
        lemma_commit_other_address(prev, cs.last(), a, index);
    }
}

/// Where a diff creates an account and no later change of the diff destroys
/// it, the account ends with cleared storage: ordinary changes that follow
/// do not downgrade it.
pub proof fn lemma_diff_clearing_sticky(m: CacheModel, cs: Seq<AccountChange>, i: int)
    requires
        0 <= i < cs.len(),
        cs[i].touched,
        cs[i].created,
        !cs[i].selfdestructed,
        forall|j: int| i < j < cs.len() && (#[trigger] cs[j]).address == cs[i].address ==> !cs[j].selfdestructed,
    ensures
        commit_all(m, cs).accounts.contains_key(cs[i].address),
        commit_all(m, cs).accounts[cs[i].address].account_state == AccountState::StorageCleared,
    decreases cs.len(),
{
    let a = cs[i].address;
    let prev = commit_all(m, cs.drop_last());
    if i == cs.len() - 1 {
        assert(cs.last() == cs[i]);
    } else {
        assert(cs.drop_last()[i] == cs[i]);
        assert forall|j: int| i < j < cs.drop_last().len() && (#[trigger] cs.drop_last()[j]).address == a implies !cs.drop_last()[j].selfdestructed by {
            assert(cs.drop_last()[j] == cs[j]);
        }
        lemma_diff_clearing_sticky(m, cs.drop_last(), i);
        assert(cs.last() == cs[cs.len() - 1]);
        if cs.last().address != a {
            lemma_commit_other_address(prev, cs.last(), a, (0u128, 0u128));
        }
    }
}

/// After an account with code is committed, the hash it refers to is a key
/// of the contract map.
pub proof fn lemma_commit_registers_code(m: CacheModel, c: AccountChange)
    requires
        c.touched,
        !c.selfdestructed,
        has_code(crate::account::code_view(c.code)),
    ensures
        commit_account(m, c).contracts.contains_key(commit_account(m, c).accounts[c.address].info.code_hash),
{
}

/// A successful memoizing slot read leaves the slot answered by the cache.
pub proof fn lemma_slot_read_caches<S: BackingStore>(
    store: S,
    m0: CacheModel,
    l0: Lookups,
    m1: CacheModel,
    l1: Lookups,
    address: Address,
    index: U256,
    r: Result<U256, S::Error>,
)
    requires
        slots_owned(m0),
        slot_read(store, m0, l0, m1, l1, address, index, r),
        r is Ok,
    ensures
        cached_storage(m1, address, index) == Some(r->Ok_0),
        m1.accounts.contains_key(address),
{
    let v = r->Ok_0;
    if cached_storage(m0, address, index) is None && !m0.accounts.contains_key(address) {
        let f = choose|f: Option<AccountInfo>| {
            &&& #[trigger] storage_filled(m0, address, index, f, v) == m1
            &&& store.answers_account(address, Ok::<Option<AccountInfo>, S::Error>(f))
            &&& match f {
                None => v == (0u128, 0u128) && l1 == Lookups { accounts: l0.accounts + 1, ..l0 },
                Some(_) => store.answers_slot(address, index, r) && l1 == Lookups {
                    accounts: l0.accounts + 1,
                    slots: l0.slots + 1,
                    ..l0
                },
            }
        };
        lemma_read_through_memoizes(m0, address, index, f, v);
    }
}

/// Once one child's slot read has gone to the root and succeeded, another
/// child that does not hold the account reads the same slot without any
/// lookup of the backing store and without changing the root's cache; it
/// gets the same value unless the account does not exist, where it gets zero.
pub proof fn lemma_children_share_fetches<S: BackingStore>(
    store: S,
    address: Address,
    index: U256,
    m0: CacheModel,
    l0: Lookups,
    o0: CacheModel,
    m1: CacheModel,
    l1: Lookups,
    o1: CacheModel,
    r1: Result<U256, S::Error>,
    p0: CacheModel,
    m2: CacheModel,
    l2: Lookups,
    p1: CacheModel,
    r2: Result<U256, S::Error>,
)
    requires
        slots_owned(m0),
        cached_storage(o0, address, index) is None,
        child_slot_read(store, m0, l0, m1, l1, o0, o1, address, index, r1),
        r1 is Ok,
        !p0.accounts.contains_key(address),
        child_slot_read(store, m1, l1, m2, l2, p0, p1, address, index, r2),
    ensures
        l2 == l1,
        m2 == m1,
        m1.accounts[address].account_state != AccountState::NotExisting ==> r2 == r1,
        m1.accounts[address].account_state == AccountState::NotExisting ==> r2 == Ok::<U256, S::Error>((0u128, 0u128)),
{
    let v = r1->Ok_0;
    if o0.accounts.contains_key(address) {
        lemma_slot_read_caches(store, m0, l0, m1, l1, address, index, r1);
    } else {
        let (mm, ll, f) = choose|mm: CacheModel, ll: Lookups, f: Option<AccountInfo>| {
            &&& #[trigger] account_read(store, m0, l0, mm, ll, address, Ok::<Option<AccountInfo>, S::Error>(f))
            &&& match f {
                None => r1 == Ok::<U256, S::Error>((0u128, 0u128)) && m1 == mm && l1 == ll && o1 == storage_filled(
                    o0,
                    address,
                    index,
                    None,
                    (0u128, 0u128),
                ),
                Some(_) => slot_read(store, mm, ll, m1, l1, address, index, r1) && match r1 {
                    Ok(v) => o1 == storage_filled(o0, address, index, f, v),
                    Err(_) => o1 == o0,
                },
            }
        };
        assert(slots_owned(mm));
        if f is Some {
            lemma_slot_read_caches(store, mm, ll, m1, l1, address, index, r1);
        } else {
            assert(m1.accounts.contains_key(address));
            assert(m1.accounts[address].account_state == AccountState::NotExisting);
        }
    }
    // The second child's account read is answered by the root's cache.
    assert(cached_account(m1, address) is Some);
    assert(!(r2 is Err && account_read(store, m1, l1, m2, l2, address, Err::<Option<AccountInfo>, S::Error>(r2->Err_0))));
    let (mm2, ll2, f2) = choose|mm: CacheModel, ll: Lookups, f: Option<AccountInfo>| {
        &&& #[trigger] account_read(store, m1, l1, mm, ll, address, Ok::<Option<AccountInfo>, S::Error>(f))
        &&& match f {
            None => r2 == Ok::<U256, S::Error>((0u128, 0u128)) && m2 == mm && l2 == ll && p1 == storage_filled(
                p0,
                address,
                index,
                None,
                (0u128, 0u128),
            ),
            Some(_) => slot_read(store, mm, ll, m2, l2, address, index, r2) && match r2 {
                Ok(v) => p1 == storage_filled(p0, address, index, f, v),
                Err(_) => p1 == p0,
            },
        }
    };
    assert(mm2 == m1 && ll2 == l1);
}

/// Extending the slots of one account gives, for a key of that account,
/// the same result over any two maps that agree on that key.
pub proof fn lemma_with_slots_agree(
    s1: Map<(Address, U256), U256>,
    s2: Map<(Address, U256), U256>,
    a: Address,
    d: Seq<(U256, U256)>,
    key: (Address, U256),
)
    requires
        s1.contains_key(key) == s2.contains_key(key),
        s1.contains_key(key) ==> s1[key] == s2[key],
    ensures
        with_slots(s1, a, d).contains_key(key) == with_slots(s2, a, d).contains_key(key),
        with_slots(s1, a, d).contains_key(key) ==> with_slots(s1, a, d)[key] == with_slots(s2, a, d)[key],
    decreases d.len(),
{
    if d.len() > 0 {
        lemma_with_slots_agree(s1, s2, a, d.drop_last(), key);
    }
}

/// A created account holds exactly the slots its change writes: whatever
/// it held before is gone.
pub proof fn lemma_created_slots_are_diff(m: CacheModel, c: AccountChange, index: U256)
    requires
        c.touched,
        c.created,
        !c.selfdestructed,
    ensures
        commit_account(m, c).slots.contains_key((c.address, index)) == with_slots(Map::empty(), c.address, c.storage@).contains_key(
            (c.address, index),
        ),
        commit_account(m, c).slots.contains_key((c.address, index)) ==> commit_account(m, c).slots[(c.address, index)]
            == with_slots(Map::empty(), c.address, c.storage@)[(c.address, index)],
{
    let base = without_account(m.slots, c.address);
    assert(!base.contains_key((c.address, index)));
    lemma_with_slots_agree(base, Map::empty(), c.address, c.storage@, (c.address, index));
}

} // verus!
