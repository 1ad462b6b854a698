//! An object-recycling pool.
//!
//! The pool owns every instance it ever constructs and keeps a free list of
//! handles to the instances currently available for reuse.  Callers either
//! drive the pool directly with raw handles, or acquire a [`pool::PoolBox`]
//! guard that must be consumed to return its instance, so that a lent-out
//! instance can be given back exactly once.

pub mod counter;
pub mod pool;
