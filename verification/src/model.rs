//! The mathematical model of the store.
//!
//! `StoreView` abstracts the store as the generator's counter together with
//! the sequence of (identifier, content) pairs in ascending identifier
//! order. Each operation has a spec-level transition function here; the
//! executable operations promise to agree with these transitions, and the
//! laws in `laws` are proved about them.

use vstd::prelude::*;

use crate::error::StoreError;

verus! {

/// The number of records a single page of `list` returns at most.
pub const PAGE_SIZE: u16 = 10;

/// The abstract state of the store: the last identifier issued by the
/// generator (0 before any was issued) and the records in ascending
/// identifier order.
#[verifier::ext_equal]
pub ghost struct StoreView {
    pub next_id: u16,
    pub entries: Seq<(u16, Seq<char>)>,
}

/// Well-formedness: identifiers strictly increase along the sequence (so
/// they are pairwise distinct and the sequence is sorted), and every stored
/// identifier was issued by the generator, i.e. lies in `1 ..= next_id`.
pub open spec fn wf(v: StoreView) -> bool {
    &&& forall|i: int, j: int|
        #![trigger v.entries[i].0, v.entries[j].0]
        0 <= i < j < v.entries.len() ==> v.entries[i].0 < v.entries[j].0
    &&& forall|i: int| 0 <= i < v.entries.len() ==> 1 <= (#[trigger] v.entries[i].0) <= v.next_id
}

/// The stored contents, in ascending identifier order.
pub open spec fn contents(v: StoreView) -> Seq<Seq<char>> {
    v.entries.map_values(|e: (u16, Seq<char>)| e.1)
}

/// Whether `id` currently has a record.
pub open spec fn contains_id(v: StoreView, id: u16) -> bool {
    exists|i: int| 0 <= i < v.entries.len() && v.entries[i].0 == id
}

/// The position of `id`'s record. Meaningful only when `contains_id` holds;
/// under `wf` the position is unique.
pub open spec fn idx_of(v: StoreView, id: u16) -> int {
    choose|i: int| 0 <= i < v.entries.len() && v.entries[i].0 == id
}

/// What `create` does: unless the identifier space is exhausted, issue the
/// next identifier and append the record; exhaustion changes nothing.
pub open spec fn spec_create(v: StoreView, content: Seq<char>) -> (StoreView, Result<
    u16,
    StoreError,
>) {
    if v.next_id == u16::MAX {
        (v, Err(StoreError::Exhausted))
    } else {
        let id = (v.next_id + 1) as u16;
        (StoreView { next_id: id, entries: v.entries.push((id, content)) }, Ok(id))
    }
}

/// What `read` returns: the content under `id`, or `NotFound`.
pub open spec fn spec_read(v: StoreView, id: u16) -> Result<Seq<char>, StoreError> {
    if contains_id(v, id) {
        Ok(v.entries[idx_of(v, id)].1)
    } else {
        Err(StoreError::NotFound(id))
    }
}

/// What `update` does: replace the content under an existing `id`, leaving
/// its position and identifier unchanged; fail with `NotFound` and change
/// nothing when `id` has no record.
pub open spec fn spec_update(v: StoreView, id: u16, content: Seq<char>) -> (StoreView, Result<
    (),
    StoreError,
>) {
    if contains_id(v, id) {
        (
            StoreView { next_id: v.next_id, entries: v.entries.update(idx_of(v, id), (id, content)) },
            Ok(()),
        )
    } else {
        (v, Err(StoreError::NotFound(id)))
    }
}

/// What `delete` does: remove the record under an existing `id`; fail with
/// `NotFound` and change nothing when `id` has no record. The generator's
/// counter is untouched, so the identifier is never reissued.
pub open spec fn spec_delete(v: StoreView, id: u16) -> (StoreView, Result<(), StoreError>) {
    if contains_id(v, id) {
        (StoreView { next_id: v.next_id, entries: v.entries.remove(idx_of(v, id)) }, Ok(()))
    } else {
        (v, Err(StoreError::NotFound(id)))
    }
}

/// Page numbers below 1 are treated as 1.
pub open spec fn clamp_page(page: u16) -> u16 {
    if page < 1 {
        1
    } else {
        page
    }
}

/// What `list` returns: the slice of the ordered contents starting at
/// offset `(page - 1) * PAGE_SIZE` (after clamping the page), at most
/// `PAGE_SIZE` long; `InvalidPage` when that slice would be empty. The next
/// page number is present exactly when records remain beyond the slice.
pub open spec fn spec_list(v: StoreView, page: u16) -> Result<
    (Seq<Seq<char>>, Option<u16>),
    StoreError,
> {
    let p = clamp_page(page);
    let start = (p - 1) * (PAGE_SIZE as int);
    let n = v.entries.len() as int;
    if start < n {
        let end = if start + PAGE_SIZE <= n {
            start + PAGE_SIZE
        } else {
            n
        };
        let next = if n > start + PAGE_SIZE {
            Some((p + 1) as u16)
        } else {
            None
        };
        Ok((contents(v).subrange(start, end), next))
    } else {
        Err(StoreError::InvalidPage(p))
    }
}

/// The views of a sequence of strings.
pub open spec fn views_of(items: Seq<String>) -> Seq<Seq<char>> {
    items.map_values(|s: String| s@)
}

/// Under `wf`, a position holding `id` is the only one, so it is the one
/// `idx_of` picks.
pub proof fn lemma_idx_of_unique(v: StoreView, id: u16, i: int)
    requires
        wf(v),
        0 <= i < v.entries.len(),
        v.entries[i].0 == id,
    ensures
        contains_id(v, id),
        idx_of(v, id) == i,
{
    assert(contains_id(v, id));
    let j = idx_of(v, id);
    if j < i {
        assert(v.entries[j].0 < v.entries[i].0);
    } else if j > i {
        assert(v.entries[i].0 < v.entries[j].0);
    }
}

/// Under `wf`, the identifier at position `i` is at least `i + 1`: the
/// identifiers strictly increase and start no lower than 1.
pub proof fn lemma_id_at_least_index(v: StoreView, i: int)
    requires
        wf(v),
        0 <= i < v.entries.len(),
    ensures
        v.entries[i].0 >= i + 1,
    decreases i,
{
    if i > 0 {
        lemma_id_at_least_index(v, i - 1);
        assert(v.entries[i - 1].0 < v.entries[i].0);
    }
}

/// A well-formed store holds at most `u16::MAX` records: each position's
/// identifier exceeds the position, and identifiers are 16-bit.
pub proof fn lemma_len_bounded(v: StoreView)
    requires
        wf(v),
    ensures
        v.entries.len() <= u16::MAX,
{
    if v.entries.len() > u16::MAX {
        lemma_id_at_least_index(v, u16::MAX as int);
    }
}

/// Creation preserves well-formedness: the fresh identifier exceeds every
/// stored one, so appending it keeps the sequence strictly increasing.
pub proof fn lemma_create_wf(v: StoreView, content: Seq<char>)
    requires
        wf(v),
    ensures
        wf(spec_create(v, content).0),
{
    if v.next_id != u16::MAX {
        let r = spec_create(v, content).0;
        let n = v.entries.len() as int;
        assert forall|i: int, j: int| 0 <= i < j < r.entries.len() implies r.entries[i].0
            < r.entries[j].0 by {
            if j == n {
                assert(r.entries[i].0 == v.entries[i].0);
                assert(v.entries[i].0 <= v.next_id);
            }
        }
        assert forall|i: int| 0 <= i < r.entries.len() implies 1 <= (
        #[trigger] r.entries[i].0) <= r.next_id by {
            if i < n {
                assert(1 <= v.entries[i].0 <= v.next_id);
            }
        }
    }
}

/// Updating preserves well-formedness: every position keeps its identifier.
pub proof fn lemma_update_wf(v: StoreView, id: u16, content: Seq<char>)
    requires
        wf(v),
    ensures
        wf(spec_update(v, id, content).0),
{
    if contains_id(v, id) {
        let k = idx_of(v, id);
        assert(0 <= k < v.entries.len() && v.entries[k].0 == id);
        let r = spec_update(v, id, content).0;
        assert(forall|i: int| 0 <= i < r.entries.len() ==> (#[trigger] r.entries[i].0)
            == v.entries[i].0);
        assert forall|i: int, j: int| 0 <= i < j < r.entries.len() implies r.entries[i].0
            < r.entries[j].0 by {
            assert(v.entries[i].0 < v.entries[j].0);
        }
    }
}

/// Deletion preserves well-formedness: what remains is a subsequence of a
/// strictly increasing sequence.
pub proof fn lemma_delete_wf(v: StoreView, id: u16)
    requires
        wf(v),
    ensures
        wf(spec_delete(v, id).0),
{
    if contains_id(v, id) {
        let k = idx_of(v, id);
        assert(0 <= k < v.entries.len() && v.entries[k].0 == id);
        let r = spec_delete(v, id).0;
        assert forall|i: int, j: int| 0 <= i < j < r.entries.len() implies r.entries[i].0
            < r.entries[j].0 by {
            let i0: int = if i < k {
                i
            } else {
                i + 1
            };
            let j0: int = if j < k {
                j
            } else {
                j + 1
            };
            assert(r.entries[i] == v.entries[i0]);
            assert(r.entries[j] == v.entries[j0]);
            assert(v.entries[i0].0 < v.entries[j0].0);
        }
        assert forall|i: int| 0 <= i < r.entries.len() implies 1 <= (
        #[trigger] r.entries[i].0) <= r.next_id by {
            let i0: int = if i < k {
                i
            } else {
                i + 1
            };
            assert(r.entries[i] == v.entries[i0]);
            assert(1 <= v.entries[i0].0 <= v.next_id);
        }
    }
}

/// A successful deletion removes the identifier's only occurrence, so the
/// identifier has no record afterwards.
pub proof fn lemma_delete_removes(v: StoreView, id: u16)
    requires
        wf(v),
        contains_id(v, id),
    ensures
        !contains_id(spec_delete(v, id).0, id),
{
    let k = idx_of(v, id);
    assert(0 <= k < v.entries.len() && v.entries[k].0 == id);
    let r = spec_delete(v, id).0;
    if contains_id(r, id) {
        let j = choose|j: int| 0 <= j < r.entries.len() && r.entries[j].0 == id;
        let j0: int = if j < k {
            j
        } else {
            j + 1
        };
        assert(r.entries[j] == v.entries[j0]);
        if j0 < k {
            assert(v.entries[j0].0 < v.entries[k].0);
        } else {
            assert(v.entries[k].0 < v.entries[j0].0);
        }
    }
}

} // verus!
