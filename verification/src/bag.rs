//! Bags: tables that keep no order and no gaps, and whose rows may be
//! deleted while they are walked.
//!
//! To delete a row from a bag, the last row is moved into its place. The
//! handles of the other rows stay valid but that of the last row, which
//! from then on is the handle of the row that was moved.

use vstd::prelude::*;
use crate::index::GenericRowId;
use crate::index::RowIndex;
use crate::tables::GetTableName;
use crate::tables::LockedTable;

verus! {

/// A bag of rows of the table `T`.
pub struct Bag<T: GetTableName, I> {
    len: T::Idx,
    rows: Vec<I>,
}

impl<T: GetTableName, I> View for Bag<T, I> {
    type V = Seq<I>;

    /// The rows, in the order of their positions.
    closed spec fn view(&self) -> Seq<I> {
        self.rows@
    }
}

impl<T: GetTableName, I> Bag<T, I> {
    #[verifier::type_invariant]
    spec fn counted(self) -> bool {
        self.len.value() == self.rows@.len()
    }

    /// How many rows the bag holds.
    pub closed spec fn size(self) -> nat {
        self.len.value()
    }

    /// A bag without rows.
    pub fn new() -> (bag: Self)
        ensures
            bag@.len() == 0,
            bag.size() == 0,
    {
        match T::Idx::from_usize(0) {
            Some(len) => Bag { len, rows: Vec::new() },
            None => vstd::pervasive::unreached(),
        }
    }

    /// Put a row in the bag, and hand out its handle. A bag whose next row
    /// would be the undefined row is full: it gives the row back.
    pub fn push(&mut self, row: I) -> (r: Result<GenericRowId<T>, I>)
        ensures
            old(self).size() == old(self)@.len(),
            final(self).size() == final(self)@.len(),
            old(self)@.len() < T::Idx::spec_max() <==> r is Ok,
            r matches Ok(at) ==> at@ == old(self)@.len() && final(self)@ == old(self)@.push(row),
            r matches Err(back) ==> back == row && final(self)@ == old(self)@,
    {
        proof {
            use_type_invariant(&*self);
            self.len.lemma_in_range();
        }
        if self.len.to_usize() >= T::Idx::max_value().to_usize() {
            return Err(row);
        }
        let at = GenericRowId::new(self.len);
        let mut rows = self.take_rows();
        rows.push(row);
        *self = Bag { len: at.next().to_raw(), rows };
        Ok(at)
    }

    /// Take the rows out of the bag, which is left empty.
    fn take_rows(&mut self) -> (rows: Vec<I>)
        ensures
            rows@ == old(self)@,
            rows@.len() == old(self).size(),
            final(self)@.len() == 0,
    {
        proof {
            use_type_invariant(&*self);
        }
        let mut emptied = Self::new();
        core::mem::swap(self, &mut emptied);
        emptied.rows
    }

    /// The row at `at`, if the bag has one there.
    pub fn get(&self, at: GenericRowId<T>) -> (r: Option<&I>)
        ensures
            self.size() == self@.len(),
            at@ < self@.len() <==> r is Some,
            r matches Some(row) ==> *row == self@[at@ as int],
    {
        proof {
            use_type_invariant(self);
        }
        let i = at.to_usize();
        if i < self.rows.len() {
            Some(&self.rows[i])
        } else {
            None
        }
    }
}

impl<T: GetTableName, I> LockedTable for Bag<T, I> {
    type Row = T;

    open spec fn spec_len(&self) -> nat {
        self.size()
    }

    /// A bag has no deleted rows: a row that is deleted is gone.
    open spec fn spec_is_deleted(&self, i: nat) -> bool {
        false
    }

    /// The last row has taken the place of the deleted one.
    open spec fn deleted_from(&self, before: &Self, i: nat) -> bool {
        &&& before.size() == before@.len()
        &&& self.size() == self@.len()
        &&& i < before@.len()
        &&& self@ == before@.update(i as int, before@.last()).drop_last()
    }

    proof fn lemma_len_fits(&self) {
        self.len.lemma_in_range();
    }

    fn len(&self) -> (n: usize) {
        proof {
            use_type_invariant(self);
        }
        self.rows.len()
    }

    fn is_deleted(&self, idx: GenericRowId<T>) -> (b: bool) {
        false
    }

    fn delete_row(&mut self, idx: GenericRowId<T>) {
        let len = GenericRowId::<T>::new(self.len);
        let mut rows = self.take_rows();
        rows.swap_remove(idx.to_usize());
        *self = Bag { len: len.prev().to_raw(), rows };
    }
}

/// A row that the walk over a bag has handed out, and that can be marked for
/// deletion. A row that is let go without a mark stays.
pub struct Deletable<'a, T: GetTableName> {
    pub inner: GenericRowId<T>,
    pub mark: &'a mut bool,
}

impl<'a, T: GetTableName> Deletable<'a, T> {
    /// The row that was handed out.
    pub fn get(&self) -> (r: GenericRowId<T>)
        ensures
            r == self.inner,
    {
        self.inner
    }

    /// Mark the row: the walk deletes it before it goes on.
    pub fn delete(self)
        ensures
            *final(self.mark) == true,
    {
        *self.mark = true;
    }
}

/// A walk over the rows of a bag, during which the row last handed out can
/// be marked for deletion. The walk deletes a marked row when it is asked
/// for the next one, and then hands out the same position again: in a bag
/// another row has taken the deleted one's place.
pub struct BagIter<'w, T: LockedTable> {
    pub table: &'w mut T,
    pub delete: bool,
    pub i: usize,
    pub last: Option<usize>,
}

impl<'w, T: LockedTable> BagIter<'w, T> {
    /// The walk is in order when it has not gone past the end of the table,
    /// and the row last handed out is the one before the next.
    pub open spec fn wf(self) -> bool {
        &&& self.i <= self.table.spec_len()
        &&& self.i == 0 ==> self.last is None && !self.delete
        &&& self.i > 0 ==> self.last == Some((self.i - 1) as usize)
    }

    /// Start a walk over `table`.
    pub fn new(table: &'w mut T) -> (it: Self)
        ensures
            it.wf(),
            *it.table == *old(table),
            *final(table) == *final(it.table),
            it.i == 0,
    {
        BagIter { table, delete: false, i: 0, last: None }
    }

    /// The next row of the walk, with the table. If the row handed out
    /// before was marked, it is deleted first, and its position is handed
    /// out again.
    pub fn next<'a>(&'a mut self) -> (r: Option<(&'a mut T, Deletable<'a, T::Row>)>)
        requires
            old(self).wf(),
        ensures
            *final(final(self).table) == *final(old(self).table),
            old(self).i >= old(self).table.spec_len() <==> r is None,
            r is None ==> *final(self) == *old(self),
            r matches Some((table, row)) ==> {
                &&& *final(self).table == *final(table)
                &&& final(self).delete == *final(row.mark)
                &&& *row.mark == false
                &&& final(self).last == Some(row.inner@ as usize)
                &&& if old(self).delete {
                    &&& table.deleted_from(old(self).table, row.inner@)
                    &&& old(self).last == Some(row.inner@ as usize)
                    &&& final(self).i == old(self).i
                } else {
                    &&& *table == *old(self).table
                    &&& row.inner@ == old(self).i
                    &&& final(self).i == old(self).i + 1
                }
            },
    {
        if self.i >= self.table.len() {
            return None;
        }
        proof {
            self.table.lemma_len_fits();
        }
        if self.delete {
            self.delete = false;
            self.table.delete_row(GenericRowId::from_usize(self.last.unwrap()));
        } else {
            self.last = Some(self.i);
            self.i += 1;
        }
        let this_i = self.last.unwrap();
        proof {
            self.table.lemma_len_fits();
        }
        let this_i = GenericRowId::from_usize(this_i);
        Some((&mut *self.table, Deletable { inner: this_i, mark: &mut self.delete }))
    }

    /// End the walk: a row that is still marked is deleted.
    pub fn finish(self)
        requires
            self.wf(),
        ensures
            if self.delete {
                final(self.table).deleted_from(old(self.table), self.last->0 as nat)
            } else {
                *final(self.table) == *old(self.table)
            },
    {
        if let (Some(i), true) = (self.last, self.delete) {
            proof {
                self.table.lemma_len_fits();
            }
            let i = GenericRowId::from_usize(i);
            self.table.delete_row(i);
        }
    }
}

} // verus!
