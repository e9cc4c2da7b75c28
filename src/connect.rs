//! Connecting to a database, and the shared context of one evaluation run.
use crate::root::{BackingStore, Child, Root};
use std::sync::Arc;
use vstd::prelude::*;

verus! {

/// A source of fresh database handles.
pub trait DbConnect {
    /// The handle a connection yields.
    type Database;

    /// Why a connection failed.
    type Error;

    /// A fresh database handle.
    fn connect(&self) -> Result<Self::Database, Self::Error>;
}

/// A root connects by handing out a new child with an empty overlay.
impl<Db: BackingStore> DbConnect for Root<Db> {
    type Database = Child;

    type Error = Db::Error;

    fn connect(&self) -> Result<Child, Db::Error> {
        Ok(self.child())
    }
}

/// A connector that the execution engine builds its databases from.
pub struct EvmParts<Db> {
    db: Db,
}

impl<Db: DbConnect> EvmParts<Db> {
    /// The wrapped connector.
    pub closed spec fn connector(&self) -> Db {
        self.db
    }

    /// Wraps a connector.
    pub fn new(db: Db) -> (r: EvmParts<Db>)
        ensures
            r.connector() == db,
    {
        EvmParts { db }
    }

    /// A fresh database handle from the wrapped connector.
    pub fn connect(&self) -> Result<Db::Database, Db::Error> {
        self.db.connect()
    }
}

/// What every evaluation of one run shares: the engine's factory, its
/// configuration and the block.
pub struct EvmCtxInner<Ef, C, B> {
    pub evm_factory: Ef,
    pub cfg: C,
    pub block: B,
}

/// The shared, reference-counted context of one run. Jobs hold it weakly:
/// once the run drops it, they abandon their work.
pub struct EvmCtx<Ef, C, B>(pub Arc<EvmCtxInner<Ef, C, B>>);

impl<Ef, C, B> EvmCtx<Ef, C, B> {
    /// A context of the given parts.
    pub fn new(evm_factory: Ef, cfg: C, block: B) -> (r: EvmCtx<Ef, C, B>)
        ensures
            *r.0 == (EvmCtxInner { evm_factory, cfg, block }),
    {
        EvmCtx(Arc::new(EvmCtxInner { evm_factory, cfg, block }))
    }
}

} // verus!
