//! The write path of a multi-version graph store, as seen from its foreign
//! entry points: the classification of the operations of a write batch, the
//! machine that hands them to the graph one by one, the responses returned to
//! the caller, and the configuration that opens a store.
use vstd::prelude::*;

pub mod batch;
pub mod config;
pub mod op;
pub mod response;

verus! {

} // verus!
