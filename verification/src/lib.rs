//! An in-memory record store: short text records keyed by small numeric
//! identifiers, with create, read, update, delete and paginated listing.
//!
//! Identifiers are issued by a monotonic generator starting at 1 and are
//! never reused. Records are kept in ascending identifier order, which is
//! the order pagination follows.

use vstd::prelude::*;

pub mod error;
pub mod generator;
pub mod laws;
pub mod model;
pub mod store;

verus! {

/// Bytes of a compiled service module for a host harness to install.
/// No module is bundled with this library, so the result is empty.
pub fn load_todos_wasm() -> (r: Vec<u8>)
    ensures
        r@ == Seq::<u8>::empty(),
{
    Vec::new()
}

} // verus!
