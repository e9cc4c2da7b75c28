//! A read-through state cache shared by speculative evaluations, and the
//! decision logic of a pool that races scored candidates against a deadline.

pub mod primitives;
pub mod account;
pub mod maps;
pub mod cache;
pub mod root;
pub mod laws;
pub mod pool;
pub mod connect;
