//! The shared root database (a backing store behind the shared cache) and the
//! private children layered over it.
use crate::account::{AccountChange, AccountInfo, DbAccount};
use crate::cache::{commit_all, CacheModel, ConcurrentCache};
use crate::primitives::{Address, B256, U256};
use vstd::prelude::*;

verus! {

/// The authoritative, possibly slow source of state. Each lookup may fail.
/// Each lookup's answer is described by a predicate that an implementation
/// may state; by default it promises nothing.
pub trait BackingStore {
    type Error;

    /// Whether `r` is an answer this store may give for the account.
    open spec fn answers_account(&self, address: Address, r: Result<Option<AccountInfo>, Self::Error>) -> bool {
        true
    }

    /// Whether `r` is an answer this store may give for the code body.
    open spec fn answers_code(&self, code_hash: B256, r: Result<Vec<u8>, Self::Error>) -> bool {
        true
    }

    /// Whether `r` is an answer this store may give for the slot.
    open spec fn answers_slot(&self, address: Address, index: U256, r: Result<U256, Self::Error>) -> bool {
        true
    }

    /// Whether `r` is an answer this store may give for the block hash.
    open spec fn answers_block_hash(&self, number: u64, r: Result<B256, Self::Error>) -> bool {
        true
    }

    /// The account's information, or `None` where the account does not exist.
    fn basic_ref(&self, address: Address) -> (r: Result<Option<AccountInfo>, Self::Error>)
        ensures
            self.answers_account(address, r),
    ;

    /// The code body with the given hash.
    fn code_by_hash_ref(&self, code_hash: B256) -> (r: Result<Vec<u8>, Self::Error>)
        ensures
            self.answers_code(code_hash, r),
    ;

    /// The value of one storage slot.
    fn storage_ref(&self, address: Address, index: U256) -> (r: Result<U256, Self::Error>)
        ensures
            self.answers_slot(address, index, r),
    ;

    /// The hash of a block.
    fn block_hash_ref(&self, number: u64) -> (r: Result<B256, Self::Error>)
        ensures
            self.answers_block_hash(number, r),
    ;
}

/// How many lookups of each kind a database has made of its backing store.
pub ghost struct Lookups {
    pub accounts: nat,
    pub codes: nat,
    pub slots: nat,
    pub block_hashes: nat,
}

/// What the cache alone answers for an account: `None` where it must ask
/// the backing store.
pub open spec fn cached_account(m: CacheModel, address: Address) -> Option<Option<AccountInfo>> {
    if m.accounts.contains_key(address) {
        Some(m.accounts[address].info_spec())
    } else {
        None
    }
}

/// What the cache alone answers for a storage slot: `None` where it must ask
/// the backing store. An unmapped slot of an account whose storage is
/// cleared, or which does not exist, is zero.
pub open spec fn cached_storage(m: CacheModel, address: Address, index: U256) -> Option<U256> {
    if m.accounts.contains_key(address) {
        if m.slots.contains_key((address, index)) {
            Some(m.slots[(address, index)])
        } else if m.accounts[address].account_state.storage_cleared_spec() {
            Some((0u128, 0u128))
        } else {
            None
        }
    } else {
        None
    }
}

/// The cache after a slot read that went to the backing store: where the
/// account was unknown, `fetched` is what the store reported of it.
pub open spec fn storage_filled(
    m: CacheModel,
    address: Address,
    index: U256,
    fetched: Option<AccountInfo>,
    value: U256,
) -> CacheModel {
    if m.accounts.contains_key(address) {
        CacheModel { slots: m.slots.insert((address, index), value), ..m }
    } else {
        match fetched {
            Some(info) => CacheModel {
                accounts: m.accounts.insert(address, DbAccount::from_fetched(Some(info))),
                slots: m.slots.insert((address, index), value),
                ..m
            },
            None => CacheModel {
                accounts: m.accounts.insert(address, DbAccount::from_fetched(None)),
                ..m
            },
        }
    }
}

/// A memoizing account read, from cache `m0` and counts `l0` to `m1` and
/// `l1`: a cached answer costs nothing; otherwise one account lookup whose
/// answer is returned and, where it succeeded, remembered.
pub open spec fn account_read<S: BackingStore>(
    store: S,
    m0: CacheModel,
    l0: Lookups,
    m1: CacheModel,
    l1: Lookups,
    address: Address,
    r: Result<Option<AccountInfo>, S::Error>,
) -> bool {
    match cached_account(m0, address) {
        Some(x) => r == Ok::<Option<AccountInfo>, S::Error>(x) && m1 == m0 && l1 == l0,
        None => {
            &&& store.answers_account(address, r)
            &&& l1 == Lookups { accounts: l0.accounts + 1, ..l0 }
            &&& match r {
                Ok(x) => m1 == (CacheModel { accounts: m0.accounts.insert(address, DbAccount::from_fetched(x)), ..m0 }),
                Err(_) => m1 == m0,
            }
        },
    }
}

/// A memoizing code read: a cached body costs nothing; otherwise one code
/// lookup whose answer is returned and, where it succeeded, remembered.
pub open spec fn code_read<S: BackingStore>(
    store: S,
    m0: CacheModel,
    l0: Lookups,
    m1: CacheModel,
    l1: Lookups,
    code_hash: B256,
    r: Result<Vec<u8>, S::Error>,
) -> bool {
    if m0.contracts.contains_key(code_hash) {
        r is Ok && r->Ok_0@ == m0.contracts[code_hash] && m1 == m0 && l1 == l0
    } else {
        &&& store.answers_code(code_hash, r)
        &&& l1 == Lookups { codes: l0.codes + 1, ..l0 }
        &&& match r {
            Ok(c) => m1 == (CacheModel { contracts: m0.contracts.insert(code_hash, c@), ..m0 }),
            Err(_) => m1 == m0,
        }
    }
}

/// A memoizing slot read. A cached answer costs nothing. A live cached
/// account costs one slot lookup. An unknown account costs one account
/// lookup, and one slot lookup more only where the store reports the account
/// present; a missing account reads zero.
pub open spec fn slot_read<S: BackingStore>(
    store: S,
    m0: CacheModel,
    l0: Lookups,
    m1: CacheModel,
    l1: Lookups,
    address: Address,
    index: U256,
    r: Result<U256, S::Error>,
) -> bool {
    match cached_storage(m0, address, index) {
        Some(v) => r == Ok::<U256, S::Error>(v) && m1 == m0 && l1 == l0,
        None => if m0.accounts.contains_key(address) {
            &&& store.answers_slot(address, index, r)
            &&& l1 == Lookups { slots: l0.slots + 1, ..l0 }
            &&& match r {
                Ok(v) => m1 == (CacheModel { slots: m0.slots.insert((address, index), v), ..m0 }),
                Err(_) => m1 == m0,
            }
        } else {
            match r {
                Ok(v) => exists|f: Option<AccountInfo>| {
                    &&& #[trigger] storage_filled(m0, address, index, f, v) == m1
                    &&& store.answers_account(address, Ok::<Option<AccountInfo>, S::Error>(f))
                    &&& match f {
                        None => v == (0u128, 0u128) && l1 == Lookups { accounts: l0.accounts + 1, ..l0 },
                        Some(_) => store.answers_slot(address, index, r) && l1 == Lookups {
                            accounts: l0.accounts + 1,
                            slots: l0.slots + 1,
                            ..l0
                        },
                    }
                },
                Err(e) => m1 == m0 && ({
                    ||| store.answers_account(address, Err::<Option<AccountInfo>, S::Error>(e))
                        && l1 == Lookups { accounts: l0.accounts + 1, ..l0 }
                    ||| exists|i: AccountInfo| {
                        &&& #[trigger] store.answers_account(address, Ok::<Option<AccountInfo>, S::Error>(Some(i)))
                        &&& store.answers_slot(address, index, r)
                        &&& l1 == Lookups { accounts: l0.accounts + 1, slots: l0.slots + 1, ..l0 }
                    }
                }),
            }
        },
    }
}

/// A memoizing block-hash read: a cached hash costs nothing; otherwise one
/// lookup whose answer is returned and, where it succeeded, remembered.
pub open spec fn block_hash_read<S: BackingStore>(
    store: S,
    m0: CacheModel,
    l0: Lookups,
    m1: CacheModel,
    l1: Lookups,
    number: u64,
    r: Result<B256, S::Error>,
) -> bool {
    if m0.block_hashes.contains_key(number) {
        r == Ok::<B256, S::Error>(m0.block_hashes[number]) && m1 == m0 && l1 == l0
    } else {
        &&& store.answers_block_hash(number, r)
        &&& l1 == Lookups { block_hashes: l0.block_hashes + 1, ..l0 }
        &&& match r {
            Ok(h) => m1 == (CacheModel { block_hashes: m0.block_hashes.insert(number, h), ..m0 }),
            Err(_) => m1 == m0,
        }
    }
}

/// What a non-memoizing account read of `root` answers: the cached answer,
/// else the backing store's.
pub open spec fn root_answers_account<Db: BackingStore>(
    root: RootInner<Db>,
    address: Address,
    r: Result<Option<AccountInfo>, Db::Error>,
) -> bool {
    match cached_account(root@, address) {
        Some(x) => r == Ok::<Option<AccountInfo>, Db::Error>(x),
        None => root.store().answers_account(address, r),
    }
}

/// What a non-memoizing code read of `root` answers: the cached body, else
/// the backing store's.
pub open spec fn root_answers_code<Db: BackingStore>(root: RootInner<Db>, code_hash: B256, r: Result<Vec<u8>, Db::Error>) -> bool {
    if root@.contracts.contains_key(code_hash) {
        r is Ok && r->Ok_0@ == root@.contracts[code_hash]
    } else {
        root.store().answers_code(code_hash, r)
    }
}

/// What a non-memoizing slot read of `root` answers: the cached answer, else
/// the backing store's.
pub open spec fn root_answers_slot<Db: BackingStore>(
    root: RootInner<Db>,
    address: Address,
    index: U256,
    r: Result<U256, Db::Error>,
) -> bool {
    match cached_storage(root@, address, index) {
        Some(v) => r == Ok::<U256, Db::Error>(v),
        None => root.store().answers_slot(address, index, r),
    }
}

/// What a non-memoizing block-hash read of `root` answers: the cached hash,
/// else the backing store's.
pub open spec fn root_answers_block_hash<Db: BackingStore>(root: RootInner<Db>, number: u64, r: Result<B256, Db::Error>) -> bool {
    if root@.block_hashes.contains_key(number) {
        r == Ok::<B256, Db::Error>(root@.block_hashes[number])
    } else {
        root.store().answers_block_hash(number, r)
    }
}

/// A backing store with the shared cache in front of it.
pub struct RootInner<Db> {
    cache: ConcurrentCache,
    db: Db,
    lookups: Ghost<Lookups>,
}

impl<Db> View for RootInner<Db> {
    type V = CacheModel;

    closed spec fn view(&self) -> CacheModel {
        self.cache@
    }
}

impl<Db: BackingStore> RootInner<Db> {
    /// The cache is well formed.
    pub closed spec fn wf(&self) -> bool {
        self.cache.wf()
    }

    /// The backing store.
    pub closed spec fn store(&self) -> Db {
        self.db
    }

    /// How many lookups of each kind this database has made of its backing
    /// store.
    pub closed spec fn lookups(&self) -> Lookups {
        self.lookups@
    }

    /// The contents of a new, empty cache.
    pub open spec fn new_model() -> CacheModel {
        CacheModel {
            accounts: Map::empty(),
            slots: Map::empty(),
            contracts: Map::empty(),
            block_hashes: Map::empty(),
        }
    }

    /// An empty cache in front of `db`.
    pub fn new(db: Db) -> (r: RootInner<Db>)
        ensures
            r.wf(),
            r.lookups() == (Lookups { accounts: 0, codes: 0, slots: 0, block_hashes: 0 }),
            r.store() == db,
            r@ == RootInner::<Db>::new_model(),
    {
        RootInner {
            cache: ConcurrentCache::new(),
            db,
            lookups: Ghost(Lookups { accounts: 0, codes: 0, slots: 0, block_hashes: 0 }),
        }
    }

    /// In a well-formed database every cached slot belongs to a cached
    /// account.
    pub proof fn lemma_slots_owned(&self)
        requires
            self.wf(),
        ensures
            crate::cache::slots_owned(self@),
    {
        self.cache.lemma_slots_owned();
    }

    /// The shared cache.
    pub fn cache(&self) -> (r: &ConcurrentCache)
        ensures
            r@ == self@,
    {
        &self.cache
    }

    /// The account's information, from the cache or else fetched once from
    /// the backing store and remembered.
    pub fn basic(&mut self, address: Address) -> (r: Result<Option<AccountInfo>, Db::Error>)
        requires
            old(self).wf(),
        ensures
            final(self).wf(),
            final(self).store() == old(self).store(),
            account_read(old(self).store(), old(self)@, old(self).lookups(), final(self)@, final(self).lookups(), address, r),
    {
        match self.cache.account(&address) {
            Some(acc) => Ok(acc.info()),
            None => {
                self.lookups = Ghost(Lookups { accounts: self.lookups@.accounts + 1, ..self.lookups@ });
                let fetched = self.db.basic_ref(address)?;
                let acc = DbAccount::new_fetched(fetched, self.cache.empty_hash());
                self.cache.put_account(address, acc);
                Ok(acc.info())
            },
        }
    }

    /// The code body with the given hash, from the cache or else fetched once
    /// from the backing store and remembered.
    pub fn code_by_hash(&mut self, code_hash: B256) -> (r: Result<Vec<u8>, Db::Error>)
        requires
            old(self).wf(),
        ensures
            final(self).wf(),
            final(self).store() == old(self).store(),
            code_read(old(self).store(), old(self)@, old(self).lookups(), final(self)@, final(self).lookups(), code_hash, r),
    {
        match self.cache.contract(&code_hash) {
            Some(c) => Ok(c),
            None => {
                self.lookups = Ghost(Lookups { codes: self.lookups@.codes + 1, ..self.lookups@ });
                let c = self.db.code_by_hash_ref(code_hash)?;
                self.cache.put_contract(code_hash, c.clone());
                Ok(c)
            },
        }
    }

    /// The value of a storage slot, from the cache or else fetched from the
    /// backing store and remembered. An unmapped slot of a cleared or missing
    /// account is zero and costs no lookup.
    pub fn storage(&mut self, address: Address, index: U256) -> (r: Result<U256, Db::Error>)
        requires
            old(self).wf(),
        ensures
            final(self).wf(),
            final(self).store() == old(self).store(),
            slot_read(old(self).store(), old(self)@, old(self).lookups(), final(self)@, final(self).lookups(), address, index, r),
            r is Ok ==> cached_storage(final(self)@, address, index) == Some(r->Ok_0),
    {
        let ghost m0 = self@;
        match self.cache.account(&address) {
            Some(acc) => match self.cache.slot(address, index) {
                Some(v) => Ok(v),
                None => {
                    if acc.account_state.is_storage_cleared() {
                        Ok((0, 0))
                    } else {
                        self.lookups = Ghost(Lookups { slots: self.lookups@.slots + 1, ..self.lookups@ });
                        let v = self.db.storage_ref(address, index)?;
                        self.cache.put_slot(address, index, v);
                        Ok(v)
                    }
                },
            },
            None => {
                self.lookups = Ghost(Lookups { accounts: self.lookups@.accounts + 1, ..self.lookups@ });
                let fetched = self.db.basic_ref(address)?;
                match fetched {
                    Some(info) => {
                        self.lookups = Ghost(Lookups { slots: self.lookups@.slots + 1, ..self.lookups@ });
                        let sr = self.db.storage_ref(address, index);
                        match sr {
                            Ok(v) => {
                                self.cache.put_account(address, DbAccount::new_fetched(Some(info), self.cache.empty_hash()));
                                self.cache.put_slot(address, index, v);
                                proof {
                                    assert(self@ == storage_filled(m0, address, index, Some(info), v));
                                }
                                Ok(v)
                            },
                            Err(e) => Err(e),
                        }
                    },
                    None => {
                        proof {
                            self.cache.lemma_slots_owned();
                        }
                        self.cache.put_account(address, DbAccount::new_fetched(None, self.cache.empty_hash()));
                        proof {
                            assert(self@ == storage_filled(m0, address, index, None, (0u128, 0u128)));
                        }
                        Ok((0, 0))
                    },
                }
            },
        }
    }

    /// The hash of a block, from the cache or else fetched once from the
    /// backing store and remembered.
    pub fn block_hash(&mut self, number: u64) -> (r: Result<B256, Db::Error>)
        requires
            old(self).wf(),
        ensures
            final(self).wf(),
            final(self).store() == old(self).store(),
            block_hash_read(old(self).store(), old(self)@, old(self).lookups(), final(self)@, final(self).lookups(), number, r),
    {
        match self.cache.block_hash(number) {
            Some(h) => Ok(h),
            None => {
                self.lookups = Ghost(Lookups { block_hashes: self.lookups@.block_hashes + 1, ..self.lookups@ });
                let h = self.db.block_hash_ref(number)?;
                self.cache.put_block_hash(number, h);
                Ok(h)
            },
        }
    }

    /// The account's information from the cache, or else straight from the
    /// backing store, remembering nothing.
    pub fn basic_ref(&self, address: Address) -> (r: Result<Option<AccountInfo>, Db::Error>)
        ensures
            root_answers_account(*self, address, r),
    {
        match self.cache.account(&address) {
            Some(acc) => Ok(acc.info()),
            None => self.db.basic_ref(address),
        }
    }

    /// The code body from the cache, or else straight from the backing store,
    /// remembering nothing.
    pub fn code_by_hash_ref(&self, code_hash: B256) -> (r: Result<Vec<u8>, Db::Error>)
        ensures
            root_answers_code(*self, code_hash, r),
    {
        match self.cache.contract(&code_hash) {
            Some(c) => Ok(c),
            None => self.db.code_by_hash_ref(code_hash),
        }
    }

    /// The slot value from the cache, or else straight from the backing
    /// store, remembering nothing.
    pub fn storage_ref(&self, address: Address, index: U256) -> (r: Result<U256, Db::Error>)
        ensures
            root_answers_slot(*self, address, index, r),
    {
        match self.cache.account(&address) {
            Some(acc) => match self.cache.slot(address, index) {
                Some(v) => Ok(v),
                None => {
                    if acc.account_state.is_storage_cleared() {
                        Ok((0, 0))
                    } else {
                        self.db.storage_ref(address, index)
                    }
                },
            },
            None => self.db.storage_ref(address, index),
        }
    }

    /// The block hash from the cache, or else straight from the backing
    /// store, remembering nothing.
    pub fn block_hash_ref(&self, number: u64) -> (r: Result<B256, Db::Error>)
        ensures
            root_answers_block_hash(*self, number, r),
    {
        match self.cache.block_hash(number) {
            Some(h) => Ok(h),
            None => self.db.block_hash_ref(number),
        }
    }

    /// Folds a state diff into the cache. Never reaches the backing store.
    pub fn commit(&mut self, changes: &Vec<AccountChange>)
        requires
            old(self).wf(),
        ensures
            final(self).wf(),
            final(self).store() == old(self).store(),
            final(self)@ == commit_all(old(self)@, changes@),
            final(self).lookups() == old(self).lookups(),
    {
        self.cache.commit(changes);
    }
}

/// The shared database of a session, from which children are made.
pub struct Root<Db> {
    inner: RootInner<Db>,
}

impl<Db: BackingStore> Root<Db> {
    /// The shared database.
    pub closed spec fn inner_spec(&self) -> RootInner<Db> {
        self.inner
    }

    /// A root with an empty cache in front of `db`.
    pub fn new(db: Db) -> (r: Root<Db>)
        ensures
            r.inner_spec().wf(),
            r.inner_spec()@ == RootInner::<Db>::new_model(),
    {
        Root { inner: RootInner::new(db) }
    }

    /// The shared database.
    pub fn deref(&self) -> (r: &RootInner<Db>)
        ensures
            *r == self.inner_spec(),
    {
        &self.inner
    }

    /// The shared database, for committing an accepted outcome.
    pub fn deref_mut(&mut self) -> (r: &mut RootInner<Db>)
        ensures
            *r == old(self).inner_spec(),
            final(self).inner_spec() == *final(r),
    {
        &mut self.inner
    }

    /// A child of this root, with an empty private overlay.
    pub fn child(&self) -> (r: Child)
        ensures
            r.wf(),
            r@ == RootInner::<Db>::new_model(),
    {
        Child::new()
    }
}

/// What a child's slot read does, from root cache `m0` and counts `l0` to
/// `m1` and `l1`, and from overlay `o0` to `o1`. The overlay answers what it
/// can, touching nothing. For a live account it holds, the root's memoizing
/// slot read answers. For an account it lacks, the root's memoizing account
/// read comes first: a missing account reads zero, a present one is followed
/// by the root's slot read. What the root answered is remembered in the
/// overlay.
pub open spec fn child_slot_read<S: BackingStore>(
    store: S,
    m0: CacheModel,
    l0: Lookups,
    m1: CacheModel,
    l1: Lookups,
    o0: CacheModel,
    o1: CacheModel,
    address: Address,
    index: U256,
    r: Result<U256, S::Error>,
) -> bool {
    match cached_storage(o0, address, index) {
        Some(v) => r == Ok::<U256, S::Error>(v) && m1 == m0 && l1 == l0 && o1 == o0,
        None => if o0.accounts.contains_key(address) {
            &&& slot_read(store, m0, l0, m1, l1, address, index, r)
            &&& match r {
                Ok(v) => o1 == (CacheModel { slots: o0.slots.insert((address, index), v), ..o0 }),
                Err(_) => o1 == o0,
            }
        } else {
            ||| r is Err && o1 == o0 && account_read(
                store,
                m0,
                l0,
                m1,
                l1,
                address,
                Err::<Option<AccountInfo>, S::Error>(r->Err_0),
            )
            ||| exists|mm: CacheModel, ll: Lookups, f: Option<AccountInfo>| {
                &&& #[trigger] account_read(store, m0, l0, mm, ll, address, Ok::<Option<AccountInfo>, S::Error>(f))
                &&& match f {
                    None => r == Ok::<U256, S::Error>((0u128, 0u128)) && m1 == mm && l1 == ll && o1 == storage_filled(
                        o0,
                        address,
                        index,
                        None,
                        (0u128, 0u128),
                    ),
                    Some(_) => slot_read(store, mm, ll, m1, l1, address, index, r) && match r {
                        Ok(v) => o1 == storage_filled(o0, address, index, f, v),
                        Err(_) => o1 == o0,
                    },
                }
            }
        },
    }
}

/// A private overlay for one speculative evaluation. Its reads consult the
/// overlay, then the root it is handed, whose cache remembers what it
/// fetched for the child; its commits stay in the overlay.
pub struct Child {
    cache: ConcurrentCache,
}

impl View for Child {
    type V = CacheModel;

    closed spec fn view(&self) -> CacheModel {
        self.cache@
    }
}

impl Child {
    /// The overlay is well formed.
    pub closed spec fn wf(&self) -> bool {
        self.cache.wf()
    }

    /// A child with an empty overlay.
    pub fn new() -> (r: Child)
        ensures
            r.wf(),
            r@.accounts == Map::<Address, DbAccount>::empty(),
            r@.slots == Map::<(Address, U256), U256>::empty(),
            r@.contracts == Map::<B256, Seq<u8>>::empty(),
            r@.block_hashes == Map::<u64, B256>::empty(),
    {
        Child { cache: ConcurrentCache::new() }
    }

    /// The overlay.
    pub fn cache(&self) -> (r: &ConcurrentCache)
        ensures
            r@ == self@,
    {
        &self.cache
    }

    /// The account's information, from the overlay or else by the root's
    /// memoizing read, and remembered in the overlay.
    pub fn basic<Db: BackingStore>(&mut self, root: &mut RootInner<Db>, address: Address) -> (r: Result<
        Option<AccountInfo>,
        Db::Error,
    >)
        requires
            old(self).wf(),
            old(root).wf(),
        ensures
            final(self).wf(),
            final(root).wf(),
            final(root).store() == old(root).store(),
            match cached_account(old(self)@, address) {
                Some(x) => r == Ok::<Option<AccountInfo>, Db::Error>(x) && final(self)@ == old(self)@ && *final(root)
                    == *old(root),
                None => {
                    &&& account_read(old(root).store(), old(root)@, old(root).lookups(), final(root)@, final(root).lookups(), address, r)
                    &&& match r {
                        Ok(x) => final(self)@ == (CacheModel {
                            accounts: old(self)@.accounts.insert(address, DbAccount::from_fetched(x)),
                            ..old(self)@
                        }),
                        Err(_) => final(self)@ == old(self)@,
                    }
                },
            },
    {
        match self.cache.account(&address) {
            Some(acc) => Ok(acc.info()),
            None => {
                let fetched = root.basic(address)?;
                let acc = DbAccount::new_fetched(fetched, self.cache.empty_hash());
                self.cache.put_account(address, acc);
                Ok(acc.info())
            },
        }
    }

    /// The code body, from the overlay or else by the root's memoizing read,
    /// and remembered in the overlay.
    pub fn code_by_hash<Db: BackingStore>(&mut self, root: &mut RootInner<Db>, code_hash: B256) -> (r: Result<Vec<u8>, Db::Error>)
        requires
            old(self).wf(),
            old(root).wf(),
        ensures
            final(self).wf(),
            final(root).wf(),
            final(root).store() == old(root).store(),
            if old(self)@.contracts.contains_key(code_hash) {
                r is Ok && r->Ok_0@ == old(self)@.contracts[code_hash] && final(self)@ == old(self)@ && *final(root)
                    == *old(root)
            } else {
                &&& code_read(old(root).store(), old(root)@, old(root).lookups(), final(root)@, final(root).lookups(), code_hash, r)
                &&& match r {
                    Ok(c) => final(self)@ == (CacheModel {
                        contracts: old(self)@.contracts.insert(code_hash, c@),
                        ..old(self)@
                    }),
                    Err(_) => final(self)@ == old(self)@,
                }
            },
    {
        match self.cache.contract(&code_hash) {
            Some(c) => Ok(c),
            None => {
                let c = root.code_by_hash(code_hash)?;
                self.cache.put_contract(code_hash, c.clone());
                Ok(c)
            },
        }
    }

    /// The slot value, from the overlay or else through the root's memoizing
    /// reads, and remembered in the overlay.
    pub fn storage<Db: BackingStore>(&mut self, root: &mut RootInner<Db>, address: Address, index: U256) -> (r: Result<
        U256,
        Db::Error,
    >)
        requires
            old(self).wf(),
            old(root).wf(),
        ensures
            final(self).wf(),
            final(root).wf(),
            final(root).store() == old(root).store(),
            cached_storage(old(self)@, address, index) is Some ==> *final(root) == *old(root),
            child_slot_read(
                old(root).store(),
                old(root)@,
                old(root).lookups(),
                final(root)@,
                final(root).lookups(),
                old(self)@,
                final(self)@,
                address,
                index,
                r,
            ),
            r is Ok ==> cached_storage(final(self)@, address, index) == Some(r->Ok_0),
    {
        let ghost o0 = self@;
        let ghost m0 = root@;
        let ghost l0 = root.lookups();
        match self.cache.account(&address) {
            Some(acc) => match self.cache.slot(address, index) {
                Some(v) => Ok(v),
                None => {
                    if acc.account_state.is_storage_cleared() {
                        Ok((0, 0))
                    } else {
                        let v = root.storage(address, index)?;
                        self.cache.put_slot(address, index, v);
                        Ok(v)
                    }
                },
            },
            None => {
                let fetched = root.basic(address)?;
                let ghost mm = root@;
                let ghost ll = root.lookups();
                match fetched {
                    Some(info) => {
                        let sr = root.storage(address, index);
                        proof {
                            assert(account_read(root.store(), m0, l0, mm, ll, address, Ok::<Option<AccountInfo>, Db::Error>(fetched)));
                        }
                        match sr {
                            Ok(v) => {
                                self.cache.put_account(address, DbAccount::new_fetched(Some(info), self.cache.empty_hash()));
                                self.cache.put_slot(address, index, v);
                                proof {
                                    assert(self@ == storage_filled(o0, address, index, Some(info), v));
                                }
                                Ok(v)
                            },
                            Err(e) => Err(e),
                        }
                    },
                    None => {
                        proof {
                            self.cache.lemma_slots_owned();
                            assert(account_read(root.store(), m0, l0, mm, ll, address, Ok::<Option<AccountInfo>, Db::Error>(fetched)));
                        }
                        self.cache.put_account(address, DbAccount::new_fetched(None, self.cache.empty_hash()));
                        proof {
                            assert(self@ == storage_filled(o0, address, index, None, (0u128, 0u128)));
                        }
                        Ok((0, 0))
                    },
                }
            },
        }
    }

    /// The block hash, from the overlay or else by the root's memoizing
    /// read, and remembered in the overlay.
    pub fn block_hash<Db: BackingStore>(&mut self, root: &mut RootInner<Db>, number: u64) -> (r: Result<B256, Db::Error>)
        requires
            old(self).wf(),
            old(root).wf(),
        ensures
            final(self).wf(),
            final(root).wf(),
            final(root).store() == old(root).store(),
            if old(self)@.block_hashes.contains_key(number) {
                r == Ok::<B256, Db::Error>(old(self)@.block_hashes[number]) && final(self)@ == old(self)@ && *final(root)
                    == *old(root)
            } else {
                &&& block_hash_read(old(root).store(), old(root)@, old(root).lookups(), final(root)@, final(root).lookups(), number, r)
                &&& match r {
                    Ok(h) => final(self)@ == (CacheModel {
                        block_hashes: old(self)@.block_hashes.insert(number, h),
                        ..old(self)@
                    }),
                    Err(_) => final(self)@ == old(self)@,
                }
            },
    {
        match self.cache.block_hash(number) {
            Some(h) => Ok(h),
            None => {
                let h = root.block_hash(number)?;
                self.cache.put_block_hash(number, h);
                Ok(h)
            },
        }
    }

    /// The account's information from the overlay, or else read through the
    /// root, remembering nothing.
    pub fn basic_ref<Db: BackingStore>(&self, root: &RootInner<Db>, address: Address) -> (r: Result<Option<AccountInfo>, Db::Error>)
        ensures
            match cached_account(self@, address) {
                Some(x) => r == Ok::<Option<AccountInfo>, Db::Error>(x),
                None => root_answers_account(*root, address, r),
            },
    {
        match self.cache.account(&address) {
            Some(acc) => Ok(acc.info()),
            None => root.basic_ref(address),
        }
    }

    /// The code body from the overlay, or else read through the root,
    /// remembering nothing.
    pub fn code_by_hash_ref<Db: BackingStore>(&self, root: &RootInner<Db>, code_hash: B256) -> (r: Result<Vec<u8>, Db::Error>)
        ensures
            if self@.contracts.contains_key(code_hash) {
                r is Ok && r->Ok_0@ == self@.contracts[code_hash]
            } else {
                root_answers_code(*root, code_hash, r)
            },
    {
        match self.cache.contract(&code_hash) {
            Some(c) => Ok(c),
            None => root.code_by_hash_ref(code_hash),
        }
    }

    /// The slot value from the overlay, or else read through the root,
    /// remembering nothing.
    pub fn storage_ref<Db: BackingStore>(&self, root: &RootInner<Db>, address: Address, index: U256) -> (r: Result<U256, Db::Error>)
        ensures
            match cached_storage(self@, address, index) {
                Some(v) => r == Ok::<U256, Db::Error>(v),
                None => root_answers_slot(*root, address, index, r),
            },
    {
        match self.cache.account(&address) {
            Some(acc) => match self.cache.slot(address, index) {
                Some(v) => Ok(v),
                None => {
                    if acc.account_state.is_storage_cleared() {
                        Ok((0, 0))
                    } else {
                        root.storage_ref(address, index)
                    }
                },
            },
            None => root.storage_ref(address, index),
        }
    }

    /// The block hash from the overlay, or else read through the root,
    /// remembering nothing.
    pub fn block_hash_ref<Db: BackingStore>(&self, root: &RootInner<Db>, number: u64) -> (r: Result<B256, Db::Error>)
        ensures
            if self@.block_hashes.contains_key(number) {
                r == Ok::<B256, Db::Error>(self@.block_hashes[number])
            } else {
                root_answers_block_hash(*root, number, r)
            },
    {
        match self.cache.block_hash(number) {
            Some(h) => Ok(h),
            None => root.block_hash_ref(number),
        }
    }

    /// Folds a state diff into the overlay only: no root is involved.
    pub fn commit(&mut self, changes: &Vec<AccountChange>)
        requires
            old(self).wf(),
        ensures
            final(self).wf(),
            final(self)@ == commit_all(old(self)@, changes@),
    {
        self.cache.commit(changes)
    }
}

} // verus!
