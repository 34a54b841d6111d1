//! The executable record store.
//!
//! `TodoStore` keeps its records in a vector sorted by ascending identifier,
//! beside the generator that issues those identifiers. Every operation is
//! proved to behave as the corresponding spec-level transition in `model`
//! says.

use vstd::prelude::*;

use crate::error::StoreError;
use crate::generator::IdGenerator;
use crate::model::{
    clamp_page, contains_id, contents, lemma_create_wf, lemma_delete_wf, lemma_idx_of_unique,
    lemma_len_bounded, lemma_update_wf, spec_create, spec_delete, spec_list, spec_read,
    spec_update, views_of, wf, StoreView, PAGE_SIZE,
};

verus! {

/// A stored record: an identifier and its text content.
pub struct Record {
    pub id: u16,
    pub content: String,
}

/// The record store together with its identifier generator.
///
/// `entries` is kept sorted by strictly ascending `id`, and every stored
/// `id` was issued by `id_gen`.
pub struct TodoStore {
    pub id_gen: IdGenerator,
    pub entries: Vec<Record>,
}

impl View for TodoStore {
    type V = StoreView;

    open spec fn view(&self) -> StoreView {
        StoreView {
            next_id: self.id_gen.counter,
            entries: self.entries@.map_values(|r: Record| (r.id, r.content@)),
        }
    }
}

impl TodoStore {
    /// An empty store whose generator has issued nothing yet.
    pub fn new() -> (s: Self)
        ensures
            wf(s@),
            s@.next_id == 0,
            s@.entries == Seq::<(u16, Seq<char>)>::empty(),
    {
        let s = TodoStore { id_gen: IdGenerator::new(), entries: Vec::new() };
        proof {
            assert(s@.entries =~= Seq::<(u16, Seq<char>)>::empty());
        }
        s
    }

    /// Issues the next identifier and stores `content` under it. Fails only
    /// when every identifier of the range has already been issued.
    pub fn create(&mut self, content: String) -> (r: Result<u16, StoreError>)
        requires
            wf(old(self)@),
        ensures
            wf(final(self)@),
            final(self)@ == spec_create(old(self)@, content@).0,
            r == spec_create(old(self)@, content@).1,
    {
        let ghost c: Seq<char> = content@;
        let id = match self.id_gen.next() {
            Ok(id) => id,
            Err(e) => {
                return Err(e);
            },
        };
        self.entries.push(Record { id, content });
        proof {
            assert(self@.entries =~= old(self)@.entries.push((id, c)));
            assert(self@ =~= spec_create(old(self)@, c).0);
            lemma_create_wf(old(self)@, c);
        }
        Ok(id)
    }

    /// The content stored under `id`, or `NotFound` when `id` has no record.
    pub fn read(&self, id: u16) -> (r: Result<String, StoreError>)
        requires
            wf(self@),
        ensures
            match r {
                Ok(content) => spec_read(self@, id) == Ok::<Seq<char>, StoreError>(content@),
                Err(e) => spec_read(self@, id) == Err::<Seq<char>, StoreError>(e),
            },
    {
        let n = self.entries.len();
        let mut i: usize = 0;
        while i < n
            invariant
                wf(self@),
                n == self.entries.len(),
                0 <= i <= n,
                forall|k: int| 0 <= k < i ==> (#[trigger] self@.entries[k].0) != id,
            decreases n - i,
        {
            let rec = &self.entries[i];
            if rec.id == id {
                proof {
                    lemma_idx_of_unique(self@, id, i as int);
                }
                return Ok(rec.content.clone());
            }
            i = i + 1;
        }
        proof {
            assert(!contains_id(self@, id));
        }
        Err(StoreError::NotFound(id))
    }

    /// Replaces the content under an existing `id`; fails with `NotFound`
    /// and changes nothing when `id` has no record. Never creates a record.
    pub fn update(&mut self, id: u16, content: String) -> (r: Result<(), StoreError>)
        requires
            wf(old(self)@),
        ensures
            wf(final(self)@),
            final(self)@ == spec_update(old(self)@, id, content@).0,
            r == spec_update(old(self)@, id, content@).1,
    {
        let ghost c: Seq<char> = content@;
        let n = self.entries.len();
        let mut i: usize = 0;
        while i < n
            invariant
                wf(old(self)@),
                self == old(self),
                c == content@,
                n == self.entries.len(),
                0 <= i <= n,
                forall|k: int| 0 <= k < i ==> (#[trigger] self@.entries[k].0) != id,
            decreases n - i,
        {
            if self.entries[i].id == id {
                self.entries[i] = Record { id, content };
                proof {
                    lemma_idx_of_unique(old(self)@, id, i as int);
                    assert(self@.entries =~= old(self)@.entries.update(i as int, (id, c)));
                    assert(self@ =~= spec_update(old(self)@, id, c).0);
                    lemma_update_wf(old(self)@, id, c);
                }
                return Ok(());
            }
            i = i + 1;
        }
        proof {
            assert(!contains_id(self@, id));
        }
        Err(StoreError::NotFound(id))
    }

    /// Removes the record under an existing `id`; fails with `NotFound` and
    /// changes nothing when `id` has no record. The identifier is never
    /// issued again.
    pub fn delete(&mut self, id: u16) -> (r: Result<(), StoreError>)
        requires
            wf(old(self)@),
        ensures
            wf(final(self)@),
            final(self)@ == spec_delete(old(self)@, id).0,
            r == spec_delete(old(self)@, id).1,
    {
        let n = self.entries.len();
        let mut i: usize = 0;
        while i < n
            invariant
                wf(old(self)@),
                self == old(self),
                n == self.entries.len(),
                0 <= i <= n,
                forall|k: int| 0 <= k < i ==> (#[trigger] self@.entries[k].0) != id,
            decreases n - i,
        {
            if self.entries[i].id == id {
                self.entries.remove(i);
                proof {
                    lemma_idx_of_unique(old(self)@, id, i as int);
                    assert(self@.entries =~= old(self)@.entries.remove(i as int));
                    assert(self@ =~= spec_delete(old(self)@, id).0);
                    lemma_delete_wf(old(self)@, id);
                }
                return Ok(());
            }
            i = i + 1;
        }
        proof {
            assert(!contains_id(self@, id));
        }
        Err(StoreError::NotFound(id))
    }

    /// The page of stored contents with the given number, in ascending
    /// identifier order, and the next page's number when more records
    /// follow. Page numbers below 1 are treated as 1; a page beyond the
    /// last record fails with `InvalidPage`.
    pub fn list(&self, page: u16) -> (r: Result<(Vec<String>, Option<u16>), StoreError>)
        requires
            wf(self@),
        ensures
            match r {
                Ok(page_r) => spec_list(self@, page) == Ok::<
                    (Seq<Seq<char>>, Option<u16>),
                    StoreError,
                >((views_of(page_r.0@), page_r.1)),
                Err(e) => spec_list(self@, page) == Err::<
                    (Seq<Seq<char>>, Option<u16>),
                    StoreError,
                >(e),
            },
    {
        let p: u16 = if page < 1 {
            1
        } else {
            page
        };
        proof {
            lemma_len_bounded(self@);
        }
        let start: usize = (p as usize - 1) * (PAGE_SIZE as usize);
        let n: usize = self.entries.len();
        if start >= n {
            return Err(StoreError::InvalidPage(p));
        }
        let mut items: Vec<String> = Vec::new();
        let mut i: usize = start;
        while i < n && items.len() < PAGE_SIZE as usize
            invariant
                wf(self@),
                n == self.entries.len(),
                start <= i <= n,
                i - start == items@.len(),
                items@.len() <= PAGE_SIZE as usize,
                views_of(items@) == contents(self@).subrange(start as int, i as int),
            decreases n - i,
        {
            let rec = &self.entries[i];
            items.push(rec.content.clone());
            i = i + 1;
            proof {
                assert(views_of(items@) =~= contents(self@).subrange(start as int, i as int));
            }
        }
        let next: Option<u16> = if n > start + PAGE_SIZE as usize {
            proof {
                assert(clamp_page(p) == p);
                assert((p - 1) * (PAGE_SIZE as int) == start as int);
                // The records beyond this page put a bound on the page
                // number, so the next page number fits in the type.
                assert(p + 1 <= u16::MAX) by {
                    assert(n <= u16::MAX);
                    assert((p - 1) * (PAGE_SIZE as int) + (PAGE_SIZE as int) < n as int);
                };
            }
            Some(p + 1)
        } else {
            None
        };
        proof {
            let ghost sstart = (p - 1) * (PAGE_SIZE as int);
            assert(sstart == start as int);
            let ghost end = if sstart + PAGE_SIZE <= n as int {
                sstart + PAGE_SIZE as int
            } else {
                n as int
            };
            assert(end == i as int);
            assert(views_of(items@) == contents(self@).subrange(sstart, end));
        }
        Ok((items, next))
    }
}

} // verus!
