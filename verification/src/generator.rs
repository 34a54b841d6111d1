//! The identifier generator.

use vstd::prelude::*;

use crate::error::StoreError;

verus! {

/// Hands out each identifier exactly once, in strictly increasing order
/// starting at 1. `counter` is the last identifier issued; 0 means none
/// was issued yet, and 0 itself is never issued.
pub struct IdGenerator {
    pub counter: u16,
}

impl IdGenerator {
    /// A generator that has issued nothing: the first `next` returns 1.
    pub fn new() -> (g: Self)
        ensures
            g.counter == 0,
    {
        IdGenerator { counter: 0 }
    }

    /// Increments the counter first and returns the new value as the
    /// freshly issued identifier. Fails only when the bounded identifier
    /// range is exhausted, and then leaves the counter where it is.
    pub fn next(&mut self) -> (r: Result<u16, StoreError>)
        ensures
            old(self).counter < u16::MAX ==> {
                &&& r == Ok::<u16, StoreError>((old(self).counter + 1) as u16)
                &&& final(self).counter == old(self).counter + 1
            },
            old(self).counter == u16::MAX ==> {
                &&& r == Err::<u16, StoreError>(StoreError::Exhausted)
                &&& final(self).counter == old(self).counter
            },
    {
        if self.counter == u16::MAX {
            return Err(StoreError::Exhausted);
        }
        self.counter = self.counter + 1;
        Ok(self.counter)
    }
}

} // verus!
