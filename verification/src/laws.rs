//! Laws of the store, proved about the spec-level transitions of `model`.
//!
//! The executable operations promise to agree with those transitions, so
//! these laws hold of any sequence of calls on a store built by
//! `TodoStore::new`.

use vstd::prelude::*;

use crate::error::StoreError;
use crate::model::{
    clamp_page, contains_id, contents, lemma_create_wf, lemma_delete_removes,
    lemma_idx_of_unique, lemma_len_bounded, lemma_update_wf, spec_create, spec_delete, spec_list,
    spec_read, spec_update, wf, StoreView, PAGE_SIZE,
};

verus! {

/// Identifiers issued by consecutive creations are strictly increasing,
/// start at 1 on a fresh store, and a freshly issued identifier never
/// collides with one already stored.
pub proof fn lemma_create_ids_strictly_increasing(v: StoreView, c1: Seq<char>, c2: Seq<char>)
    requires
        wf(v),
        spec_create(v, c1).1 is Ok,
        spec_create(spec_create(v, c1).0, c2).1 is Ok,
    ensures
        ({
            let id1 = (v.next_id + 1) as u16;
            let v1 = spec_create(v, c1).0;
            let id2 = (v1.next_id + 1) as u16;
            &&& spec_create(v, c1).1 == Ok::<u16, StoreError>(id1)
            &&& spec_create(v1, c2).1 == Ok::<u16, StoreError>(id2)
            &&& 1 <= id1 < id2
            &&& !contains_id(v, id1)
            &&& (v.next_id == 0 ==> id1 == 1)
        }),
{
    let id1 = (v.next_id + 1) as u16;
    if contains_id(v, id1) {
        let k = choose|k: int| 0 <= k < v.entries.len() && v.entries[k].0 == id1;
        assert(v.entries[k].0 <= v.next_id);
    }
}

/// The identifiers that `count` consecutive `create` calls return when the
/// generator's counter starts at `counter`. The contents handed to
/// `create` play no role, and the sequence stops early only where the
/// identifier space runs out.
pub open spec fn issued_from(counter: u16, count: nat) -> Seq<u16>
    decreases count,
{
    if count == 0 || counter == u16::MAX {
        Seq::empty()
    } else {
        seq![(counter + 1) as u16] + issued_from((counter + 1) as u16, (count - 1) as nat)
    }
}

/// `create` returns the head of `issued_from`, and leaves the counter so
/// that the calls after it return its tail: any sequence of `create`
/// calls issues exactly `issued_from` of the starting counter.
pub proof fn lemma_create_follows_issued(v: StoreView, content: Seq<char>, count: nat)
    requires
        count > 0,
        v.next_id < u16::MAX,
    ensures
        spec_create(v, content).1 == Ok::<u16, StoreError>(issued_from(v.next_id, count)[0]),
        issued_from(spec_create(v, content).0.next_id, (count - 1) as nat) == issued_from(
            v.next_id,
            count,
        ).skip(1),
{
    let id = (v.next_id + 1) as u16;
    let tail = issued_from(id, (count - 1) as nat);
    assert((seq![id] + tail).skip(1) =~= tail);
}

/// The identifier the `i`-th of `count` consecutive `create` calls
/// returns is the starting counter plus `i + 1`.
proof fn lemma_issued_values(counter: u16, count: nat)
    ensures
        issued_from(counter, count).len() <= count,
        forall|i: int|
            0 <= i < issued_from(counter, count).len() ==> #[trigger] issued_from(counter, count)[i]
                == counter + i + 1,
    decreases count,
{
    if count > 0 && counter < u16::MAX {
        let id = (counter + 1) as u16;
        lemma_issued_values(id, (count - 1) as nat);
        let whole = issued_from(counter, count);
        let tail = issued_from(id, (count - 1) as nat);
        assert forall|i: int| 0 <= i < whole.len() implies #[trigger] whole[i] == counter + i
            + 1 by {
            if i > 0 {
                assert(whole[i] == tail[i - 1]);
            }
        }
    }
}

/// Uniqueness and monotonicity: over any sequence of `create` calls the
/// returned identifiers are strictly increasing — so pairwise distinct —
/// and on a fresh store they start at 1.
pub proof fn lemma_issued_ids_strictly_increasing(counter: u16, count: nat)
    ensures
        forall|i: int, j: int|
            0 <= i < j < issued_from(counter, count).len() ==> #[trigger] issued_from(
                counter,
                count,
            )[i] < #[trigger] issued_from(counter, count)[j],
        counter == 0 && count > 0 ==> issued_from(counter, count)[0] == 1,
{
    lemma_issued_values(counter, count);
}

/// Only `create` moves the generator's counter, and only upwards: updating
/// and deleting leave it untouched, so no identifier is ever reissued.
pub proof fn lemma_counter_monotonic(v: StoreView, id: u16, content: Seq<char>)
    ensures
        spec_create(v, content).0.next_id >= v.next_id,
        spec_update(v, id, content).0.next_id == v.next_id,
        spec_delete(v, id).0.next_id == v.next_id,
{
}

/// Read after write: reading the identifier `create` just returned yields
/// exactly the content given to `create`.
pub proof fn lemma_read_after_create(v: StoreView, content: Seq<char>)
    requires
        wf(v),
        spec_create(v, content).1 is Ok,
    ensures
        ({
            let id = (v.next_id + 1) as u16;
            spec_read(spec_create(v, content).0, id) == Ok::<Seq<char>, StoreError>(content)
        }),
{
    let id = (v.next_id + 1) as u16;
    let v1 = spec_create(v, content).0;
    lemma_create_wf(v, content);
    lemma_idx_of_unique(v1, id, v.entries.len() as int);
}

/// Update semantics: on an existing identifier, `update` succeeds and a
/// subsequent read returns the new content; on a missing one it fails with
/// `NotFound` and leaves the store unchanged.
pub proof fn lemma_update_semantics(v: StoreView, id: u16, content: Seq<char>)
    requires
        wf(v),
    ensures
        contains_id(v, id) ==> spec_update(v, id, content).1 == Ok::<(), StoreError>(())
            && spec_read(spec_update(v, id, content).0, id) == Ok::<Seq<char>, StoreError>(content),
        !contains_id(v, id) ==> spec_update(v, id, content) == (
            v,
            Err::<(), StoreError>(StoreError::NotFound(id)),
        ),
{
    if contains_id(v, id) {
        let k = idx_of_witness(v, id);
        let v1 = spec_update(v, id, content).0;
        lemma_update_wf(v, id, content);
        lemma_idx_of_unique(v1, id, k);
    }
}

/// Delete semantics: after a successful delete of an identifier, reading
/// it, deleting it again and updating it all fail with `NotFound`, and the
/// failing calls leave the store unchanged.
pub proof fn lemma_delete_semantics(v: StoreView, id: u16, content: Seq<char>)
    requires
        wf(v),
        spec_delete(v, id).1 is Ok,
    ensures
        ({
            let v1 = spec_delete(v, id).0;
            &&& spec_read(v1, id) == Err::<Seq<char>, StoreError>(StoreError::NotFound(id))
            &&& spec_delete(v1, id) == (v1, Err::<(), StoreError>(StoreError::NotFound(id)))
            &&& spec_update(v1, id, content) == (
                v1,
                Err::<(), StoreError>(StoreError::NotFound(id)),
            )
        }),
{
    assert(contains_id(v, id));
    lemma_delete_removes(v, id);
}

/// The position `idx_of` picks, established from `contains_id` alone.
proof fn idx_of_witness(v: StoreView, id: u16) -> (k: int)
    requires
        contains_id(v, id),
    ensures
        0 <= k < v.entries.len(),
        v.entries[k].0 == id,
        k == crate::model::idx_of(v, id),
{
    crate::model::idx_of(v, id)
}

/// The contents a client collects by calling `list` with `page`, appending
/// each returned page's items and following the returned next page number
/// until none is given. A failing call collects nothing.
pub open spec fn collected_pages(v: StoreView, page: u16) -> Seq<Seq<char>>
    decreases v.entries.len() - (clamp_page(page) - 1) * (PAGE_SIZE as int),
        when wf(v)
        via collected_pages_decreases
{
    match spec_list(v, page) {
        Err(_) => Seq::empty(),
        Ok((items, None)) => items,
        Ok((items, Some(next))) => items + collected_pages(v, next),
    }
}

#[via_fn]
proof fn collected_pages_decreases(v: StoreView, page: u16) {
    lemma_len_bounded(v);
    let p = clamp_page(page) as int;
    let n = v.entries.len() as int;
    if (p - 1) * (PAGE_SIZE as int) < n && n > (p - 1) * (PAGE_SIZE as int) + (PAGE_SIZE as int) {
        assert(p * (PAGE_SIZE as int) < n);
        assert(clamp_page((p + 1) as u16) == p + 1);
    }
}

/// Collecting from `page` onwards yields exactly the ordered contents from
/// that page's offset to the end.
proof fn lemma_collected_from(v: StoreView, page: u16)
    requires
        wf(v),
        1 <= page,
        (page - 1) * (PAGE_SIZE as int) <= v.entries.len(),
    ensures
        collected_pages(v, page) == contents(v).subrange(
            (page - 1) * (PAGE_SIZE as int),
            v.entries.len() as int,
        ),
    decreases v.entries.len() - (page - 1) * (PAGE_SIZE as int),
{
    let ps = PAGE_SIZE as int;
    let start = (page - 1) * ps;
    let n = v.entries.len() as int;
    lemma_len_bounded(v);
    assert(clamp_page(page) == page);
    if start == n {
        assert(collected_pages(v, page) =~= contents(v).subrange(start, n));
    } else if n > start + ps {
        assert(page * ps < n);
        let next = (page + 1) as u16;
        lemma_collected_from(v, next);
        assert(collected_pages(v, page) =~= contents(v).subrange(start, n));
    } else {
        assert(collected_pages(v, page) =~= contents(v).subrange(start, n));
    }
}

/// Pagination is complete: starting at page 1 and following the returned
/// next page numbers until none is given yields exactly the stored
/// contents, in ascending identifier order, with no duplicate or omission.
pub proof fn lemma_pagination_complete(v: StoreView)
    requires
        wf(v),
    ensures
        collected_pages(v, 1) == contents(v),
{
    lemma_collected_from(v, 1);
    assert(contents(v).subrange(0, v.entries.len() as int) =~= contents(v));
}

/// Listing the first page of an empty store fails with `InvalidPage(1)`.
pub proof fn lemma_list_empty_store(v: StoreView)
    requires
        v.entries.len() == 0,
    ensures
        spec_list(v, 1) == Err::<(Seq<Seq<char>>, Option<u16>), StoreError>(
            StoreError::InvalidPage(1),
        ),
{
}

/// Page clamp: listing page 0 behaves exactly like listing page 1.
pub proof fn lemma_page_clamp(v: StoreView)
    ensures
        spec_list(v, 0) == spec_list(v, 1),
{
}

} // verus!
