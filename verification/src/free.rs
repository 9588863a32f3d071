//! The free list of a table, and iteration that leaves deleted rows out.
//!
//! A deleted row keeps its slot: it is entered in the table's free list, an
//! ordered set of row handles. Walking a range of rows "consistently" is a
//! sorted merge of the range against the free list, so it takes time in the
//! length of the range plus that of the free list, with no lookup per row.

use vstd::prelude::*;
use core::cmp::Ordering;
use crate::index::CheckedIter;
use crate::index::CheckedRowId;
use crate::index::GenericRowId;
use crate::index::RowIndex;
use crate::index::RowRange;
use crate::index::UncheckedIter;
use crate::joincore::Join;
use crate::joincore::JoinCore;
use crate::order::order_of;
use crate::order::row_order;
use crate::tables::GetTableName;
use crate::tables::LockedTable;

verus! {

/// Whether the rows of `keys` stand in strictly ascending order.
pub open spec fn ascending<T: GetTableName>(keys: Seq<GenericRowId<T>>) -> bool {
    forall|i: int, j: int| 0 <= i < j < keys.len() ==> keys[i]@ < keys[j]@
}

/// The positions of the rows of `keys`.
pub open spec fn members<T: GetTableName>(keys: Seq<GenericRowId<T>>) -> Set<nat> {
    Set::new(|k: nat| exists|i: int| 0 <= i < keys.len() && #[trigger] keys[i]@ == k)
}

/// The rows that have been deleted from a table: an ordered set.
pub struct FreeList<T: GetTableName> {
    keys: Vec<GenericRowId<T>>,
}

/// The rows of a free list, in ascending order.
pub struct FreeKeys<'a, T: GetTableName> {
    keys: &'a [GenericRowId<T>],
}

impl<'a, T: GetTableName> FreeKeys<'a, T> {
    #[verifier::type_invariant]
    spec fn sorted(self) -> bool {
        ascending(self.keys@)
    }

    /// The rows, in ascending order.
    pub closed spec fn seq(self) -> Seq<GenericRowId<T>> {
        self.keys@
    }

    /// The rows as a slice: they stand in strictly ascending order.
    pub fn as_slice(&self) -> (s: &'a [GenericRowId<T>])
        ensures
            s@ == self.seq(),
            ascending(s@),
    {
        proof {
            use_type_invariant(self);
        }
        self.keys
    }
}

impl<T: GetTableName> View for FreeList<T> {
    type V = Set<nat>;

    /// The positions of the deleted rows.
    open spec fn view(&self) -> Set<nat> {
        members(self.seq())
    }
}

impl<T: GetTableName> FreeList<T> {
    #[verifier::type_invariant]
    spec fn sorted(self) -> bool {
        ascending(self.keys@)
    }

    /// The deleted rows, in ascending order.
    pub closed spec fn seq(self) -> Seq<GenericRowId<T>> {
        self.keys@
    }

    /// A free list without rows.
    pub fn new() -> (list: Self)
        ensures
            list@ == Set::<nat>::empty(),
            list.seq().len() == 0,
    {
        let list = FreeList { keys: Vec::new() };
        assert(list@ =~= Set::<nat>::empty());
        list
    }

    /// How many rows are deleted.
    pub fn len(&self) -> (n: usize)
        ensures
            n == self.seq().len(),
    {
        self.keys.len()
    }

    pub fn is_empty(&self) -> (b: bool)
        ensures
            b == (self.seq().len() == 0),
    {
        self.keys.len() == 0
    }

    /// The deleted rows in ascending order, none of them twice.
    pub fn keys<'a>(&'a self) -> (keys: FreeKeys<'a, T>)
        ensures
            keys.seq() == self.seq(),
            ascending(keys.seq()),
            members(keys.seq()) == self@,
    {
        proof {
            use_type_invariant(self);
        }
        FreeKeys { keys: self.keys.as_slice() }
    }

    /// The place of `row` in the ascending order of the list: the number of
    /// deleted rows that come before it.
    fn rank(&self, row: GenericRowId<T>) -> (at: usize)
        ensures
            at <= self.seq().len(),
            forall|i: int| 0 <= i < at ==> self.seq()[i]@ < row@,
            forall|i: int| at <= i < self.seq().len() ==> self.seq()[i]@ >= row@,
    {
        proof {
            use_type_invariant(self);
        }
        let target = row.to_usize();
        let mut lo: usize = 0;
        let mut hi: usize = self.keys.len();
        while lo < hi
            invariant
                ascending(self.keys@),
                target == row@,
                lo <= hi <= self.keys@.len(),
                forall|i: int| 0 <= i < lo ==> self.keys@[i]@ < row@,
                forall|i: int| hi <= i < self.keys@.len() ==> self.keys@[i]@ >= row@,
            decreases hi - lo,
        {
            let mid = lo + (hi - lo) / 2;
            if self.keys[mid].to_usize() < target {
                lo = mid + 1;
            } else {
                hi = mid;
            }
        }
        lo
    }

    /// Whether `row` is deleted.
    pub fn contains(&self, row: GenericRowId<T>) -> (b: bool)
        ensures
            b == self@.contains(row@),
    {
        let at = self.rank(row);
        if at < self.keys.len() && self.keys[at].to_usize() == row.to_usize() {
            true
        } else {
            proof {
                use_type_invariant(self);
                if self@.contains(row@) {
                    let i = choose|i: int| 0 <= i < self.keys@.len() && #[trigger] self.keys@[i]@
                        == row@;
                    if i > at {
                        assert(self.keys@[at as int]@ < self.keys@[i]@);
                    }
                }
            }
            false
        }
    }

    /// Enter `row` among the deleted rows. Tells whether it was not there
    /// before. No other row enters or leaves.
    pub fn insert(&mut self, row: GenericRowId<T>) -> (fresh: bool)
        ensures
            final(self)@ == old(self)@.insert(row@),
            fresh == !old(self)@.contains(row@),
            fresh ==> final(self).seq().len() == old(self).seq().len() + 1,
            !fresh ==> final(self).seq() == old(self).seq(),
    {
        if self.contains(row) {
            assert(self@ =~= self@.insert(row@));
            return false;
        }
        proof {
            use_type_invariant(&*self);
        }
        let at = self.rank(row);
        let ghost before = self.keys@;
        assert forall|i: int| at <= i < before.len() implies before[i]@ > row@ by {
            assert(before[i]@ >= row@);
            if before[i]@ == row@ {
                assert(members(before).contains(row@));
            }
        }
        let mut keys: Vec<GenericRowId<T>> = Vec::new();
        core::mem::swap(&mut self.keys, &mut keys);
        keys.insert(at, row);
        self.keys = keys;
        proof {
            let after = self.keys@;
            assert(after == before.insert(at as int, row));
            assert forall|k: nat| members(after).contains(k) == members(before).insert(
                row@,
            ).contains(k) by {
                if members(after).contains(k) {
                    let i = choose|i: int| 0 <= i < after.len() && #[trigger] after[i]@ == k;
                    if i < at {
                        assert(before[i]@ == k);
                    } else if i > at {
                        assert(before[i - 1]@ == k);
                    }
                }
                if members(before).contains(k) {
                    let i = choose|i: int| 0 <= i < before.len() && #[trigger] before[i]@ == k;
                    if i < at {
                        assert(after[i]@ == k);
                    } else {
                        assert(after[i + 1]@ == k);
                    }
                }
                if k == row@ {
                    assert(after[at as int]@ == k);
                }
            }
            assert(members(after) =~= members(before).insert(row@));
        }
        true
    }
}

/// Whether every row that `deleted` has consumed stands before `bound`.
spec fn consumed_below<'a, T: GetTableName>(
    deleted: JoinCore<'a, GenericRowId<T>>,
    bound: nat,
) -> bool {
    forall|j: int| 0 <= j < deleted.consumed() ==> (#[trigger] deleted.all()[j])@ < bound
}

/// Bring the free-list side of a merge up to `row`, and tell whether `row` is
/// in the free list.
fn tombstoned<'a, T: GetTableName>(
    deleted: &mut JoinCore<'a, GenericRowId<T>>,
    row: GenericRowId<T>,
) -> (hit: bool)
    requires
        ascending(old(deleted).all()),
        consumed_below(*old(deleted), row@),
    ensures
        final(deleted).all() == old(deleted).all(),
        hit == members(old(deleted).all()).contains(row@),
        consumed_below(*final(deleted), row@ + 1),
{
    loop
        invariant
            deleted.all() == old(deleted).all(),
            ascending(deleted.all()),
            consumed_below(*deleted, row@),
        decreases deleted.all().len() - deleted.consumed(),
    {
        let ghost before = *deleted;
        let step = deleted.join(row, row_order::<T>);
        let ghost all = deleted.all();
        match step {
            Join::Next => {
                proof {
                    if members(all).contains(row@) {
                        let i = choose|i: int| 0 <= i < all.len() && #[trigger] all[i]@ == row@;
                        if i >= before.consumed() {
                            assert(order_of(row@, before.head()@) == Ordering::Less);
                            assert(before.head()@ <= all[i]@);
                        }
                    }
                }
                return false;
            },
            Join::Stop => {
                assert(order_of(row@, before.head()@) == Ordering::Greater);
            },
            Join::Match(_) => {
                assert(order_of(row@, before.head()@) == Ordering::Equal);
                assert(before.head()@ == row@);
                return true;
            },
        }
    }
}

/// A `CheckedIter` that skips deleted rows.
pub struct ConsistentIter<'a, T: LockedTable> {
    rows: CheckedIter<'a, T>,
    deleted: JoinCore<'a, GenericRowId<T::Row>>,
}

impl<'a, T: LockedTable> ConsistentIter<'a, T> {
    #[verifier::type_invariant]
    spec fn merging(self) -> bool {
        &&& ascending(self.deleted.all())
        &&& Self::lists_deleted(self.rows.table(), members(self.deleted.all()))
        &&& consumed_below(self.deleted, self.rows.pos())
    }

    /// Whether `free` holds just the rows that are deleted from `table`.
    pub open spec fn lists_deleted(table: &T, free: Set<nat>) -> bool {
        forall|k: nat| k < table.spec_len() ==> (free.contains(k) <==> table.spec_is_deleted(k))
    }

    /// The cursor over every row of the range, deleted or not.
    pub closed spec fn rows(self) -> CheckedIter<'a, T> {
        self.rows
    }

    /// The table whose rows the cursor walks.
    pub open spec fn table(self) -> &'a T {
        self.rows().table()
    }

    /// The position from which the cursor goes on.
    pub open spec fn pos(self) -> nat {
        self.rows().pos()
    }

    /// The position at which the cursor stops.
    pub open spec fn end(self) -> nat {
        self.rows().end()
    }

    /// Whether the row at position `k` is one that the cursor has yet to
    /// yield: it lies in what is left of the range and is not deleted.
    pub open spec fn awaits(self, k: nat) -> bool {
        self.pos() <= k < self.end() && !self.table().spec_is_deleted(k)
    }

    /// Walk `rows` without the rows in `deleted`, which is the free list of
    /// the table that `rows` walks.
    pub fn new(rows: CheckedIter<'a, T>, deleted: &'a FreeList<T::Row>) -> (it: Self)
        requires
            Self::lists_deleted(rows.table(), deleted@),
        ensures
            it.rows() == rows,
    {
        let keys = deleted.keys();
        ConsistentIter { rows, deleted: JoinCore::new(keys.as_slice()) }
    }

    /// The cursor over every row that is left of the range, the deleted ones
    /// too: what the consistent cursor was made from, moved on as far as the
    /// consistent cursor has gone.
    pub fn with_deleted(self) -> (rows: CheckedIter<'a, T>)
        ensures
            rows == self.rows(),
    {
        self.rows
    }

    /// Move the cursor forward by `n` positions of the table, deleted rows
    /// counted.
    pub fn skip_fast(self, n: usize) -> (it: Self)
        requires
            self.pos() + n <= <T::Row as GetTableName>::Idx::spec_max(),
        ensures
            it.rows().table() == self.rows().table(),
            it.pos() == self.pos() + n,
            it.end() == self.end(),
    {
        proof {
            use_type_invariant(&self);
        }
        ConsistentIter { rows: self.rows.skip_fast(n), deleted: self.deleted }
    }

    /// The next row of the range that is not deleted, or `None` when none is
    /// left. Every row between the old position and the one yielded is a
    /// deleted one.
    #[inline]
    pub fn next(&mut self) -> (r: Option<CheckedRowId<'a, T>>)
        ensures
            final(self).table() == old(self).table(),
            final(self).end() == old(self).end(),
            (exists|k: nat| old(self).awaits(k)) <==> r is Some,
            r matches Some(row) ==> {
                &&& row.table() == old(self).table()
                &&& old(self).awaits(row.index())
                &&& forall|k: nat| old(self).awaits(k) ==> row.index() <= k
                &&& final(self).pos() == row.index() + 1
            },
            r is None ==> final(self).pos() >= final(self).end() && final(self).pos() >= old(self).pos(),
    {
        proof {
            use_type_invariant(&*self);
        }
        let mut rows = self.rows;
        let mut deleted = self.deleted;
        let table = rows.get_table();
        loop
            invariant
                rows.table() == old(self).table(),
                table == rows.table(),
                rows.end() == old(self).end(),
                rows.end() <= table.spec_len(),
                old(self).pos() <= rows.pos(),
                deleted.all() == old(self).deleted.all(),
                ascending(deleted.all()),
                Self::lists_deleted(rows.table(), members(deleted.all())),
                consumed_below(deleted, rows.pos()),
                forall|k: nat| old(self).pos() <= k < rows.pos() && k < rows.end()
                    ==> table.spec_is_deleted(k),
            decreases rows.end() - rows.pos(),
        {
            let row = match rows.next() {
                None => {
                    *self = ConsistentIter { rows, deleted };
                    return None;
                },
                Some(row) => row,
            };
            if !tombstoned(&mut deleted, row) {
                *self = ConsistentIter { rows, deleted };
                let checked = CheckedRowId::fab(row.to_raw(), table);
                assert(old(self).awaits(row@));
                return Some(checked);
            }
        }
    }

    /// All the rows that are left: the rows of the range that are not
    /// deleted, each once, in ascending order.
    pub fn collect(self) -> (rows: Vec<CheckedRowId<'a, T>>)
        ensures
            forall|i: int, j: int|
                0 <= i < j < rows@.len() ==> rows@[i].index() < rows@[j].index(),
            forall|i: int|
                0 <= i < rows@.len() ==> (#[trigger] rows@[i]).table() == self.table()
                    && self.awaits(rows@[i].index()),
            forall|k: nat|
                self.awaits(k) ==> exists|i: int|
                    0 <= i < rows@.len() && (#[trigger] rows@[i]).index() == k,
    {
        let mut it = self;
        let mut rows: Vec<CheckedRowId<'a, T>> = Vec::new();
        loop
            invariant
                it.table() == self.table(),
                it.end() == self.end(),
                self.pos() <= it.pos(),
                forall|i: int, j: int|
                    0 <= i < j < rows@.len() ==> rows@[i].index() < rows@[j].index(),
                forall|i: int|
                    0 <= i < rows@.len() ==> (#[trigger] rows@[i]).table() == self.table()
                        && self.awaits(rows@[i].index()) && rows@[i].index() < it.pos(),
                forall|k: nat|
                    self.awaits(k) && k < it.pos() ==> exists|i: int|
                        0 <= i < rows@.len() && (#[trigger] rows@[i]).index() == k,
            ensures
                !exists|k: nat| it.awaits(k),
            decreases it.end() - it.pos(),
        {
            let ghost before = it;
            let ghost had = rows@;
            match it.next() {
                None => {
                    proof {
                        assert forall|k: nat| self.awaits(k) && k < it.pos() implies exists|
                            i: int,
                        |
                            0 <= i < rows@.len() && (#[trigger] rows@[i]).index() == k by {
                            if k >= before.pos() {
                                assert(before.awaits(k));
                            }
                        }
                        assert forall|k: nat| !it.awaits(k) by {
                            if it.awaits(k) {
                                assert(before.awaits(k));
                            }
                        }
                    }
                    break ;
                },
                Some(row) => {
                    rows.push(row);
                    proof {
                        assert(before.awaits(row.index()));
                        assert forall|k: nat| self.awaits(k) && k < it.pos() implies exists|
                            i: int,
                        |
                            0 <= i < rows@.len() && (#[trigger] rows@[i]).index() == k by {
                            if k < before.pos() {
                                let i = choose|i: int|
                                    0 <= i < had.len() && (#[trigger] had[i]).index() == k;
                                assert(rows@[i].index() == k);
                            } else {
                                assert(before.awaits(k));
                                assert(rows@[had.len() as int].index() == k);
                            }
                        }
                    }
                },
            }
        }
        proof {
            assert forall|k: nat| self.awaits(k) implies exists|i: int|
                0 <= i < rows@.len() && (#[trigger] rows@[i]).index() == k by {
                if k >= it.pos() {
                    assert(it.awaits(k));
                }
            }
        }
        rows
    }
}

/// An `UncheckedIter` that skips deleted rows: it is used for making
/// non-structural edits to the table's data.
pub struct EditIter<'w, T: GetTableName> {
    range: UncheckedIter<T>,
    deleted: JoinCore<'w, GenericRowId<T>>,
}

impl<'w, T: GetTableName> EditIter<'w, T> {
    #[verifier::type_invariant]
    spec fn merging(self) -> bool {
        &&& ascending(self.deleted.all())
        &&& consumed_below(self.deleted, self.range.pos())
    }

    /// The positions of the rows that the cursor leaves out.
    pub closed spec fn tombstones(self) -> Set<nat> {
        members(self.deleted.all())
    }

    /// The position from which the cursor goes on.
    pub closed spec fn pos(self) -> nat {
        self.range.pos()
    }

    /// The position at which the cursor stops.
    pub closed spec fn end(self) -> nat {
        self.range.end()
    }

    /// Whether the row at position `k` is one that the cursor has yet to
    /// yield: it lies in what is left of the range and is not left out.
    pub open spec fn awaits(self, k: nat) -> bool {
        self.pos() <= k < self.end() && !self.tombstones().contains(k)
    }

    /// Walk `range` without the rows of `free_keys`.
    pub fn new(range: RowRange<GenericRowId<T>>, free_keys: FreeKeys<'w, T>) -> (it: Self)
        ensures
            it.pos() == range.start@,
            it.end() == range.end@,
            it.tombstones() == members(free_keys.seq()),
    {
        EditIter { range: range.iter_slow(), deleted: JoinCore::new(free_keys.as_slice()) }
    }

    /// Move the cursor forward by `n` positions of the table, deleted rows
    /// counted.
    pub fn skip_fast(self, n: usize) -> (it: Self)
        requires
            self.pos() + n <= T::Idx::spec_max(),
        ensures
            it.tombstones() == self.tombstones(),
            it.pos() == self.pos() + n,
            it.end() == self.end(),
    {
        proof {
            use_type_invariant(&self);
        }
        EditIter { range: self.range.skip_fast(n), deleted: self.deleted }
    }

    /// The next row of the range that is not left out, or `None` when none
    /// is left.
    pub fn next(&mut self) -> (r: Option<GenericRowId<T>>)
        ensures
            final(self).tombstones() == old(self).tombstones(),
            final(self).end() == old(self).end(),
            (exists|k: nat| old(self).awaits(k)) <==> r is Some,
            r matches Some(row) ==> {
                &&& old(self).awaits(row@)
                &&& forall|k: nat| old(self).awaits(k) ==> row@ <= k
                &&& final(self).pos() == row@ + 1
            },
            r is None ==> final(self).pos() >= final(self).end() && final(self).pos() >= old(self).pos(),
    {
        proof {
            use_type_invariant(&*self);
        }
        let mut range = self.range;
        let mut deleted = self.deleted;
        loop
            invariant
                range.end() == old(self).range.end(),
                old(self).range.pos() <= range.pos(),
                deleted.all() == old(self).deleted.all(),
                ascending(deleted.all()),
                consumed_below(deleted, range.pos()),
                forall|k: nat| old(self).range.pos() <= k < range.pos() && k < range.end()
                    ==> members(deleted.all()).contains(k),
            decreases range.end() - range.pos(),
        {
            let row = match range.next() {
                None => {
                    *self = EditIter { range, deleted };
                    return None;
                },
                Some(row) => row,
            };
            if !tombstoned(&mut deleted, row) {
                *self = EditIter { range, deleted };
                assert(old(self).awaits(row@));
                return Some(row);
            }
        }
    }

    /// All the rows that are left: the rows of the range that are not left
    /// out, each once, in ascending order.
    pub fn collect(self) -> (rows: Vec<GenericRowId<T>>)
        ensures
            forall|i: int, j: int| 0 <= i < j < rows@.len() ==> rows@[i]@ < rows@[j]@,
            forall|i: int| 0 <= i < rows@.len() ==> self.awaits((#[trigger] rows@[i])@),
            forall|k: nat|
                self.awaits(k) ==> exists|i: int|
                    0 <= i < rows@.len() && (#[trigger] rows@[i])@ == k,
    {
        let mut it = self;
        let mut rows: Vec<GenericRowId<T>> = Vec::new();
        loop
            invariant
                it.tombstones() == self.tombstones(),
                it.end() == self.end(),
                self.pos() <= it.pos(),
                forall|i: int, j: int| 0 <= i < j < rows@.len() ==> rows@[i]@ < rows@[j]@,
                forall|i: int|
                    0 <= i < rows@.len() ==> self.awaits((#[trigger] rows@[i])@) && rows@[i]@
                        < it.pos(),
                forall|k: nat|
                    self.awaits(k) && k < it.pos() ==> exists|i: int|
                        0 <= i < rows@.len() && (#[trigger] rows@[i])@ == k,
            ensures
                !exists|k: nat| it.awaits(k),
            decreases it.end() - it.pos(),
        {
            let ghost before = it;
            let ghost had = rows@;
            match it.next() {
                None => {
                    proof {
                        assert forall|k: nat| self.awaits(k) && k < it.pos() implies exists|
                            i: int,
                        |
                            0 <= i < rows@.len() && (#[trigger] rows@[i])@ == k by {
                            if k >= before.pos() {
                                assert(before.awaits(k));
                            }
                        }
                        assert forall|k: nat| !it.awaits(k) by {
                            if it.awaits(k) {
                                assert(before.awaits(k));
                            }
                        }
                    }
                    break ;
                },
                Some(row) => {
                    rows.push(row);
                    proof {
                        assert(before.awaits(row@));
                        assert forall|k: nat| self.awaits(k) && k < it.pos() implies exists|
                            i: int,
                        |
                            0 <= i < rows@.len() && (#[trigger] rows@[i])@ == k by {
                            if k < before.pos() {
                                let i = choose|i: int|
                                    0 <= i < had.len() && (#[trigger] had[i])@ == k;
                                assert(rows@[i]@ == k);
                            } else {
                                assert(before.awaits(k));
                                assert(rows@[had.len() as int]@ == k);
                            }
                        }
                    }
                },
            }
        }
        proof {
            assert forall|k: nat| self.awaits(k) implies exists|i: int|
                0 <= i < rows@.len() && (#[trigger] rows@[i])@ == k by {
                if k >= it.pos() {
                    assert(it.awaits(k));
                }
            }
        }
        rows
    }
}

impl<'a, T: LockedTable> ConsistentIter<'a, T> {
    /// The unfiltered cursor that `with_deleted` gives back is the one that
    /// the consistent cursor was made from, and the consistent cursor has
    /// yet to yield just those of its rows that are not deleted.
    pub proof fn lemma_with_deleted_round_trip(
        self,
        made_from: CheckedIter<'a, T>,
        recovered: CheckedIter<'a, T>,
    )
        requires
            self.rows() == made_from,
            recovered == self.rows(),
        ensures
            recovered == made_from,
            recovered.remaining() == made_from.remaining(),
            forall|k: nat|
                self.awaits(k) <==> recovered.remaining().contains(k)
                    && !recovered.table().spec_is_deleted(k),
    {
        assert forall|k: nat|
            self.awaits(k) <==> recovered.remaining().contains(k)
                && !recovered.table().spec_is_deleted(k) by {
            crate::index::lemma_positions(recovered.pos(), recovered.end(), k);
        }
    }
}

} // verus!
