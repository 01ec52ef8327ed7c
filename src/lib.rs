//! Client-side synchronization core: a cache of room state fed by batches of
//! incremental changes, and the bootstrap of a windowed sync session from a
//! persisted snapshot.
use vstd::prelude::*;

pub mod bootstrap;
pub mod changes;
pub mod config;
pub mod error;
pub mod keyed;
pub mod room;
pub mod store;

verus! {

} // verus!
