//! The failures the store can report.

use vstd::prelude::*;

verus! {

/// Why a store operation failed.
#[derive(Clone, Copy, Debug, PartialEq, Eq, Structural)]
pub enum StoreError {
    /// The identifier has no current record: it was never issued,
    /// or its record has been deleted.
    NotFound(u16),
    /// The requested page (after clamping to at least 1) holds no records.
    InvalidPage(u16),
    /// Every identifier of the bounded range has been issued; no record
    /// can be created.
    Exhausted,
}

} // verus!
