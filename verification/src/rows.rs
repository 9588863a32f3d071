//! The rows of a table that keeps deleted rows in place.

use vstd::prelude::*;
use crate::free::ConsistentIter;
use crate::free::FreeList;
use crate::index::CheckedIter;
use crate::index::GenericRowId;
use crate::index::RowIndex;
use crate::index::RowRange;
use crate::tables::GetTableName;
use crate::tables::LockedTable;
use crate::tables::TableError;

verus! {

/// The rows of a table: how many slots it has, and which of them hold
/// deleted rows. A deleted row keeps its slot, so the handles of the other
/// rows stay valid; a new row never takes the place of a deleted one.
pub struct RowSet<T: GetTableName> {
    len: T::Idx,
    free: FreeList<T>,
}

impl<T: GetTableName> RowSet<T> {
    #[verifier::type_invariant]
    spec fn free_within(self) -> bool {
        forall|k: nat| self.free@.contains(k) ==> k < self.len.value()
    }

    /// How many row slots the table has, deleted ones included.
    pub closed spec fn size(self) -> nat {
        self.len.value()
    }

    /// The positions of the deleted rows.
    pub closed spec fn deleted(self) -> Set<nat> {
        self.free@
    }

    /// A table without rows.
    pub fn new() -> (rows: Self)
        ensures
            rows.spec_len() == 0,
            rows.deleted() == Set::<nat>::empty(),
    {
        match T::Idx::from_usize(0) {
            Some(len) => RowSet { len, free: FreeList::new() },
            None => RowSet { len: T::Idx::max_value(), free: FreeList::new() },
        }
    }

    /// Append a row, and hand out its handle. A table whose next row would
    /// be the undefined row is full: it takes no more rows.
    pub fn push(&mut self) -> (r: Option<GenericRowId<T>>)
        ensures
            final(self).deleted() == old(self).deleted(),
            old(self).spec_len() < T::Idx::spec_max() <==> r is Some,
            r matches Some(row) ==> row@ == old(self).spec_len() && final(self).spec_len()
                == old(self).spec_len() + 1,
            r is None ==> final(self).spec_len() == old(self).spec_len(),
    {
        proof {
            use_type_invariant(&*self);
            self.len.lemma_in_range();
        }
        let n = self.len.to_usize();
        if n >= T::Idx::max_value().to_usize() {
            return None;
        }
        let row = GenericRowId::new(self.len);
        self.len = row.next().to_raw();
        Some(row)
    }

    /// Every row slot of the table, from the first to the last.
    pub fn range(&self) -> (r: RowRange<GenericRowId<T>>)
        ensures
            r.start@ == 0,
            r.end@ == self.spec_len(),
    {
        RowRange { start: GenericRowId::from_usize(0), end: GenericRowId::new(self.len) }
    }

    /// The free list of the table: the rows that are deleted.
    pub fn free_list(&self) -> (free: &FreeList<T>)
        ensures
            free@ == self.deleted(),
            forall|k: nat| free@.contains(k) ==> k < self.spec_len(),
    {
        proof {
            use_type_invariant(self);
        }
        &self.free
    }

    /// Walk the rows of `slice` that are not deleted. A range that reaches
    /// past the table's length is refused.
    pub fn iter_range<'a>(&'a self, slice: RowRange<GenericRowId<T>>) -> (r: Result<
        ConsistentIter<'a, Self>,
        TableError,
    >)
        ensures
            CheckedIter::<Self>::fits(slice, self.spec_len()) <==> r is Ok,
            r matches Ok(it) ==> it.table() == self && it.pos() == slice.start@ && it.end()
                == slice.end@,
            r matches Err(e) ==> e == TableError::OutOfBounds,
    {
        match CheckedIter::from(self, slice) {
            Ok(rows) => Ok(ConsistentIter::new(rows, &self.free)),
            Err(e) => Err(e),
        }
    }

    /// Walk all the rows that are not deleted.
    pub fn iter<'a>(&'a self) -> (it: ConsistentIter<'a, Self>)
        ensures
            it.table() == self,
            it.pos() == 0,
            it.end() == self.spec_len(),
    {
        match self.iter_range(self.range()) {
            Ok(it) => it,
            Err(_) => vstd::pervasive::unreached(),
        }
    }
}

impl<T: GetTableName> LockedTable for RowSet<T> {
    type Row = T;

    open spec fn spec_len(&self) -> nat {
        self.size()
    }

    open spec fn spec_is_deleted(&self, i: nat) -> bool {
        self.deleted().contains(i)
    }

    /// The row has entered the free list; the table is as long as before.
    open spec fn deleted_from(&self, before: &Self, i: nat) -> bool {
        &&& self.size() == before.size()
        &&& self.deleted() == before.deleted().insert(i)
    }

    proof fn lemma_len_fits(&self) {
        self.len.lemma_in_range();
    }

    fn len(&self) -> (n: usize) {
        self.len.to_usize()
    }

    fn is_deleted(&self, idx: GenericRowId<T>) -> (b: bool) {
        self.free.contains(idx)
    }

    fn delete_row(&mut self, idx: GenericRowId<T>) {
        proof {
            use_type_invariant(&*self);
        }
        let mut free = FreeList::new();
        core::mem::swap(&mut self.free, &mut free);
        free.insert(idx);
        self.free = free;
    }
}

} // verus!
