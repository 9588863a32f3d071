//! Row handles, checked and unchecked, and ranges of rows.

use vstd::prelude::*;
use vstd::std_specs::cmp::PartialEqSpec;
use vstd::std_specs::convert::FromSpecImpl;
use core::ops::Range;
use crate::tables::DomainName;
use crate::tables::GetTableName;
use crate::tables::LockedTable;
use crate::tables::TableError;
use crate::tables::TableName;

verus! {

/// An unsigned integer that can index the rows of a table. Every value fits in
/// a `usize`; the largest value of the type is the "undefined" sentinel.
pub trait RowIndex: Copy + Sized {
    /// The number this index stands for.
    spec fn value(self) -> nat;

    /// The largest number of this width.
    spec fn spec_max() -> nat;

    proof fn lemma_in_range(self)
        ensures
            self.value() <= Self::spec_max(),
            Self::spec_max() <= usize::MAX,
    ;

    proof fn lemma_value_injective(a: Self, b: Self)
        requires
            a.value() == b.value(),
        ensures
            a == b,
    ;

    fn to_usize(self) -> (n: usize)
        ensures
            n == self.value(),
    ;

    fn from_usize(n: usize) -> (i: Option<Self>)
        ensures
            n <= Self::spec_max() <==> i is Some,
            i matches Some(x) ==> x.value() == n,
    ;

    fn max_value() -> (m: Self)
        ensures
            m.value() == Self::spec_max(),
    ;
}

impl RowIndex for usize {
    open spec fn value(self) -> nat {
        self as nat
    }

    open spec fn spec_max() -> nat {
        usize::MAX as nat
    }

    proof fn lemma_in_range(self) {
    }

    proof fn lemma_value_injective(a: Self, b: Self) {
    }

    fn to_usize(self) -> (n: usize) {
        self
    }

    fn from_usize(n: usize) -> (i: Option<Self>) {
        Some(n)
    }

    fn max_value() -> (m: Self) {
        usize::MAX
    }
}

impl RowIndex for u32 {
    open spec fn value(self) -> nat {
        self as nat
    }

    open spec fn spec_max() -> nat {
        u32::MAX as nat
    }

    proof fn lemma_in_range(self) {
    }

    proof fn lemma_value_injective(a: Self, b: Self) {
    }

    fn to_usize(self) -> (n: usize) {
        self as usize
    }

    fn from_usize(n: usize) -> (i: Option<Self>) {
        if n <= u32::MAX as usize {
            Some(n as u32)
        } else {
            None
        }
    }

    fn max_value() -> (m: Self) {
        u32::MAX
    }
}

impl RowIndex for u16 {
    open spec fn value(self) -> nat {
        self as nat
    }

    open spec fn spec_max() -> nat {
        u16::MAX as nat
    }

    proof fn lemma_in_range(self) {
    }

    proof fn lemma_value_injective(a: Self, b: Self) {
    }

    fn to_usize(self) -> (n: usize) {
        self as usize
    }

    fn from_usize(n: usize) -> (i: Option<Self>) {
        if n <= u16::MAX as usize {
            Some(n as u16)
        } else {
            None
        }
    }

    fn max_value() -> (m: Self) {
        u16::MAX
    }
}

impl RowIndex for u8 {
    open spec fn value(self) -> nat {
        self as nat
    }

    open spec fn spec_max() -> nat {
        u8::MAX as nat
    }

    proof fn lemma_in_range(self) {
    }

    proof fn lemma_value_injective(a: Self, b: Self) {
    }

    fn to_usize(self) -> (n: usize) {
        self as usize
    }

    fn from_usize(n: usize) -> (i: Option<Self>) {
        if n <= u8::MAX as usize {
            Some(n as u8)
        } else {
            None
        }
    }

    fn max_value() -> (m: Self) {
        u8::MAX
    }
}

/// The index type of a table.
pub type IdxOf<T> = <T as GetTableName>::Idx;

/// Index to a row on some table. Call `check` on it to validate it against
/// the table before accessing several columns.
pub struct GenericRowId<T: GetTableName> {
    pub i: T::Idx,
}

impl<T: GetTableName> View for GenericRowId<T> {
    type V = nat;

    /// The row's position in the table.
    open spec fn view(&self) -> nat {
        self.i.value()
    }
}

impl<T: GetTableName> Clone for GenericRowId<T> {
    fn clone(&self) -> (r: Self)
        ensures
            r == *self,
    {
        GenericRowId { i: self.i }
    }
}

impl<T: GetTableName> Copy for GenericRowId<T> {

}

impl<T: GetTableName> Default for GenericRowId<T> {
    /// The undefined row: the largest index of the table's width.
    fn default() -> (r: Self)
        ensures
            r@ == T::Idx::spec_max(),
    {
        GenericRowId { i: T::Idx::max_value() }
    }
}

impl<T: GetTableName> GenericRowId<T> {
    /// Two handles with the same position are the same handle.
    pub proof fn lemma_view_injective(a: Self, b: Self)
        requires
            a@ == b@,
        ensures
            a == b,
    {
        T::Idx::lemma_value_injective(a.i, b.i);
    }

    /// A handle's position is at most the sentinel, which fits in a `usize`.
    pub proof fn lemma_in_range(self)
        ensures
            self@ <= T::Idx::spec_max(),
            T::Idx::spec_max() <= usize::MAX,
    {
        self.i.lemma_in_range();
    }

    pub fn new(i: T::Idx) -> (r: Self)
        ensures
            r.i == i,
    {
        GenericRowId { i }
    }

    pub fn from_usize(i: usize) -> (r: Self)
        requires
            i <= T::Idx::spec_max(),
        ensures
            r@ == i,
    {
        match T::Idx::from_usize(i) {
            Some(i) => GenericRowId { i },
            None => Self::default(),
        }
    }

    pub fn to_usize(&self) -> (n: usize)
        ensures
            n == self@,
    {
        self.i.to_usize()
    }

    pub fn to_raw(&self) -> (i: T::Idx)
        ensures
            i == self.i,
    {
        self.i
    }

    /// The row after this one.
    pub fn next(&self) -> (r: Self)
        requires
            self@ < T::Idx::spec_max(),
        ensures
            r@ == self@ + 1,
    {
        proof {
            self.i.lemma_in_range();
        }
        Self::from_usize(self.i.to_usize() + 1)
    }

    /// The row before this one.
    pub fn prev(&self) -> (r: Self)
        requires
            self@ > 0,
        ensures
            r@ == self@ - 1,
    {
        proof {
            self.i.lemma_in_range();
        }
        Self::from_usize(self.i.to_usize() - 1)
    }

    /// The domain of the table that the row belongs to.
    pub fn get_domain() -> (d: DomainName)
        ensures
            call_ensures(T::get_domain, (), d),
    {
        T::get_domain()
    }

    /// The name of the table that the row belongs to.
    pub fn get_name() -> (n: TableName)
        ensures
            call_ensures(T::get_name, (), n),
    {
        T::get_name()
    }
}

/// A half-open interval `[start, end)` of rows of one table.
#[derive(Copy, Clone, Debug, PartialEq, Eq, Hash, Ord, PartialOrd)]
pub struct RowRange<R> {
    pub start: R,
    pub end: R,
}

impl<R> From<Range<R>> for RowRange<R> {
    fn from(range: Range<R>) -> (r: RowRange<R>) {
        RowRange { start: range.start, end: range.end }
    }
}

impl<R> FromSpecImpl<Range<R>> for RowRange<R> {
    open spec fn obeys_from_spec() -> bool {
        true
    }

    open spec fn from_spec(range: Range<R>) -> Self {
        RowRange { start: range.start, end: range.end }
    }
}

impl<R> From<RowRange<R>> for Range<R> {
    fn from(range: RowRange<R>) -> (r: Range<R>) {
        range.start..range.end
    }
}

impl<R> FromSpecImpl<RowRange<R>> for Range<R> {
    open spec fn obeys_from_spec() -> bool {
        true
    }

    open spec fn from_spec(range: RowRange<R>) -> Self {
        Range { start: range.start, end: range.end }
    }
}

impl<T: GetTableName> RowRange<GenericRowId<T>> {
    /// A range is valid when its start is not after its end.
    pub open spec fn wf(self) -> bool {
        self.start@ <= self.end@
    }

    /// Whether the row at position `i` lies in the range.
    pub open spec fn spec_contains(self, i: nat) -> bool {
        self.start@ <= i < self.end@
    }

    /// The range without rows that starts and ends at the undefined row.
    #[inline]
    pub fn empty() -> (r: Self)
        ensures
            r.wf(),
            r.start@ == T::Idx::spec_max(),
            r.end@ == T::Idx::spec_max(),
    {
        RowRange { start: GenericRowId::default(), end: GenericRowId::default() }
    }

    /// Create a `RowRange` over a single element.
    #[inline]
    pub fn on(i: GenericRowId<T>) -> (r: Self)
        requires
            i@ < T::Idx::spec_max(),
        ensures
            r.start == i,
            r.end@ == i@ + 1,
    {
        RowRange { start: i, end: i.next() }
    }

    /// Return the `n`th row after the start, if it is not past the end.
    #[inline]
    pub fn offset(&self, n: T::Idx) -> (r: Option<GenericRowId<T>>)
        ensures
            self.start@ + n.value() <= self.end@ <==> r is Some,
            r matches Some(row) ==> row@ == self.start@ + n.value(),
    {
        proof {
            self.start.lemma_in_range();
            self.end.lemma_in_range();
            n.lemma_in_range();
        }
        let at = match self.start.to_usize().checked_add(n.to_usize()) {
            Some(at) => at,
            None => {
                return None;
            },
        };
        if at > self.end.to_usize() {
            None
        } else {
            Some(GenericRowId::from_usize(at))
        }
    }

    /// Return how many rows are in this range.
    #[inline]
    pub fn len(&self) -> (n: usize)
        requires
            self.wf(),
        ensures
            n == self.end@ - self.start@,
    {
        self.end.to_usize() - self.start.to_usize()
    }

    /// Return `true` if the given row is within this range.
    #[inline]
    pub fn contains(&self, o: GenericRowId<T>) -> (b: bool)
        ensures
            b == self.spec_contains(o@),
    {
        self.start.to_usize() <= o.to_usize() && o.to_usize() < self.end.to_usize()
    }

    /// Return `true` if this range overlaps with another.
    #[inline]
    pub fn intersects(&self, other: Self) -> (b: bool)
        requires
            self.wf(),
            other.wf(),
        ensures
            b == (self.start@ < other.end@ && other.start@ < self.end@),
    {
        // If we're not intersecting, then one is to the right of the other.
        !(self.end.to_usize() <= other.start.to_usize() || other.end.to_usize()
            <= self.start.to_usize())
    }

    /// If the given row is within this RowRange, return its offset from the beginning.
    #[inline]
    pub fn inner_index(&self, o: GenericRowId<T>) -> (r: Option<T::Idx>)
        ensures
            self.spec_contains(o@) <==> r is Some,
            r matches Some(d) ==> d.value() == o@ - self.start@,
    {
        if self.contains(o) {
            proof {
                o.lemma_in_range();
            }
            T::Idx::from_usize(o.to_usize() - self.start.to_usize())
        } else {
            None
        }
    }

    /// Walk the rows of the range in ascending order, without looking at
    /// any table.
    #[inline]
    pub fn iter_slow(&self) -> (it: UncheckedIter<T>)
        ensures
            it.pos() == self.start@,
            it.end() == self.end@,
    {
        UncheckedIter { i: self.start.to_raw(), end: self.end.to_raw() }
    }

    /// Take the first row off the range, if it has one: the range itself is
    /// a cursor over its rows.
    #[inline]
    pub fn next(&mut self) -> (r: Option<GenericRowId<T>>)
        ensures
            final(self).end == old(self).end,
            old(self).start@ < old(self).end@ <==> r is Some,
            r matches Some(row) ==> row == old(self).start && final(self).start@ == old(self).start@ + 1,
            r is None ==> final(self).start == old(self).start,
    {
        if self.start.to_usize() >= self.end.to_usize() {
            None
        } else {
            let ret = self.start;
            proof {
                self.end.lemma_in_range();
            }
            self.start = self.start.next();
            Some(ret)
        }
    }

    /// How many rows are left, as a lower and an upper bound.
    pub fn size_hint(&self) -> (r: (usize, Option<usize>))
        requires
            self.wf(),
        ensures
            r.0 == self.end@ - self.start@,
            r.1 == Some(r.0),
    {
        let s = self.end.to_usize() - self.start.to_usize();
        (s, Some(s))
    }

    /// Two non-empty ranges intersect exactly when some row lies in both.
    pub proof fn lemma_intersects_shares_row(self, other: Self)
        requires
            self.start@ < self.end@,
            other.start@ < other.end@,
        ensures
            (self.start@ < other.end@ && other.start@ < self.end@) <==> exists|i: nat|
                self.spec_contains(i) && other.spec_contains(i),
    {
        if self.start@ < other.end@ && other.start@ < self.end@ {
            let i = if self.start@ <= other.start@ {
                other.start@
            } else {
                self.start@
            };
            assert(self.spec_contains(i) && other.spec_contains(i));
        }
    }
}

/// This value can be used to index into table columns.
/// It borrows the table to ensure that it is a valid index: as long as the
/// handle lives, the row is within the table's bounds and is not deleted.
pub struct CheckedRowId<'a, T: LockedTable> {
    i: IdxOf<T::Row>,
    table: &'a T,
}

impl<'a, T: LockedTable> Clone for CheckedRowId<'a, T> {
    fn clone(&self) -> (r: Self)
        ensures
            r == *self,
    {
        proof {
            use_type_invariant(self);
        }
        CheckedRowId { i: self.i, table: self.table }
    }
}

impl<'a, T: LockedTable> Copy for CheckedRowId<'a, T> {

}

impl<'a, T: LockedTable> CheckedRowId<'a, T> {
    #[verifier::type_invariant]
    spec fn valid(self) -> bool {
        &&& self.i.value() < self.table.spec_len()
        &&& !self.table.spec_is_deleted(self.i.value())
    }

    /// The row's position in the table.
    pub closed spec fn index(self) -> nat {
        self.i.value()
    }

    /// The table the row was validated against.
    pub closed spec fn table(self) -> &'a T {
        self.table
    }

    /// Create a `CheckedRowId` without actually checking: the caller answers
    /// for the row being in bounds and not deleted.
    pub fn fab(i: IdxOf<T::Row>, table: &'a T) -> (r: Self)
        requires
            i.value() < table.spec_len(),
            !table.spec_is_deleted(i.value()),
        ensures
            r.index() == i.value(),
            r.table() == table,
    {
        CheckedRowId { i, table }
    }

    /// The row's position, which is that of a row of the table that is not
    /// deleted.
    pub fn to_usize(&self) -> (n: usize)
        ensures
            n == self.index(),
            self.index() < self.table().spec_len(),
            !self.table().spec_is_deleted(self.index()),
    {
        proof {
            use_type_invariant(self);
        }
        self.i.to_usize()
    }

    pub fn to_raw(&self) -> (i: IdxOf<T::Row>)
        ensures
            i.value() == self.index(),
            self.index() < self.table().spec_len(),
            !self.table().spec_is_deleted(self.index()),
    {
        proof {
            use_type_invariant(self);
        }
        self.i
    }

    /// The row after this one, which may not exist.
    pub fn next(self) -> (r: GenericRowId<T::Row>)
        ensures
            r@ == self.index() + 1,
    {
        proof {
            use_type_invariant(&self);
            self.table.lemma_len_fits();
        }
        GenericRowId::new(self.i).next()
    }
}

/// A row handle that can be validated against a table.
pub trait Checkable: Sized {
    type Row: GetTableName;

    /// The row's position in the table.
    spec fn row(self) -> nat;

    /// Validate the handle against `table`. It succeeds exactly when the row
    /// is within the table's bounds and is not deleted.
    fn check<'a, L: LockedTable<Row = Self::Row>>(self, table: &'a L) -> (r: Result<
        CheckedRowId<'a, L>,
        TableError,
    >)
        ensures
            r is Ok <==> self.row() < table.spec_len() && !table.spec_is_deleted(self.row()),
            r matches Ok(c) ==> c.index() == self.row() && c.table() == table,
    ;

    /// The handle without its tie to the table.
    fn uncheck(self) -> (r: GenericRowId<Self::Row>)
        ensures
            r@ == self.row(),
    ;
}

impl<T: GetTableName> Checkable for GenericRowId<T> {
    type Row = T;

    open spec fn row(self) -> nat {
        self@
    }

    fn check<'a, L: LockedTable<Row = Self::Row>>(self, table: &'a L) -> (r: Result<
        CheckedRowId<'a, L>,
        TableError,
    >)
        ensures
            r matches Ok(c) ==> c.eq_spec(&self),
            r matches Err(e) ==> e == (if self@ >= table.spec_len() {
                TableError::OutOfBounds
            } else {
                TableError::Deleted
            }),
    {
        let i = self.i;
        if i.to_usize() >= table.len() {
            return Err(TableError::OutOfBounds);
        }
        if table.is_deleted(self) {
            return Err(TableError::Deleted);
        }
        Ok(CheckedRowId::fab(i, table))
    }

    fn uncheck(self) -> (r: GenericRowId<T>)
        ensures
            r == self,
    {
        self
    }
}

impl<'b, T: LockedTable> Checkable for CheckedRowId<'b, T> {
    type Row = T::Row;

    open spec fn row(self) -> nat {
        self.index()
    }

    /// A checked handle is valid for the table it was validated against. For
    /// any other table of the same identity the row is validated anew.
    fn check<'a, L: LockedTable<Row = Self::Row>>(self, table: &'a L) -> (r: Result<
        CheckedRowId<'a, L>,
        TableError,
    >)
        ensures
            r matches Err(e) ==> e == TableError::TableMismatch,
    {
        let i = self.i;
        if i.to_usize() >= table.len() || table.is_deleted(GenericRowId::new(i)) {
            return Err(TableError::TableMismatch);
        }
        Ok(CheckedRowId::fab(i, table))
    }

    fn uncheck(self) -> (r: GenericRowId<T::Row>) {
        GenericRowId::new(self.i)
    }
}

/// The positions from `from` up to `to`, in ascending order.
pub open spec fn positions(from: nat, to: nat) -> Seq<nat> {
    Seq::new(
        if from <= to {
            (to - from) as nat
        } else {
            0
        },
        |k: int| (from + k) as nat,
    )
}

/// A cursor over the rows of a range, in ascending order. The rows are not
/// validated against any table.
pub struct UncheckedIter<T: GetTableName> {
    i: T::Idx,
    end: T::Idx,
}

/// A cursor over row handles, from a first index up to a last.
pub type RowIdIterator<T> = UncheckedIter<T>;

impl<T: GetTableName> Clone for UncheckedIter<T> {
    fn clone(&self) -> (r: Self)
        ensures
            r == *self,
    {
        UncheckedIter { i: self.i, end: self.end }
    }
}

impl<T: GetTableName> Copy for UncheckedIter<T> {

}

impl<T: GetTableName> UncheckedIter<T> {
    /// The position of the row that comes next.
    pub closed spec fn pos(self) -> nat {
        self.i.value()
    }

    /// The position at which the cursor stops.
    pub closed spec fn end(self) -> nat {
        self.end.value()
    }

    /// The positions that the cursor has yet to yield.
    pub open spec fn remaining(self) -> Seq<nat> {
        positions(self.pos(), self.end())
    }

    /// A cursor over the rows from `start` up to `end`, `end` left out.
    pub fn new(start: T::Idx, end: T::Idx) -> (it: Self)
        ensures
            it.pos() == start.value(),
            it.end() == end.value(),
    {
        UncheckedIter { i: start, end }
    }

    /// Move the cursor forward by `n` positions.
    pub fn skip_fast(self, n: usize) -> (it: Self)
        requires
            self.pos() + n <= T::Idx::spec_max(),
        ensures
            it.pos() == self.pos() + n,
            it.end() == self.end(),
    {
        proof {
            self.i.lemma_in_range();
        }
        UncheckedIter { i: GenericRowId::<T>::from_usize(self.i.to_usize() + n).to_raw(), end: self.end }
    }

    /// The next row of the range, or `None` when the range is used up.
    #[inline]
    pub fn next(&mut self) -> (r: Option<GenericRowId<T>>)
        ensures
            final(self).end() == old(self).end(),
            old(self).pos() < old(self).end() <==> r is Some,
            r matches Some(row) ==> row@ == old(self).pos() && final(self).pos() == old(self).pos()
                + 1,
            r is None ==> final(self).pos() == old(self).pos(),
    {
        if self.i.to_usize() >= self.end.to_usize() {
            None
        } else {
            let ret = GenericRowId { i: self.i };
            proof {
                self.end.lemma_in_range();
            }
            self.i = ret.next().to_raw();
            Some(ret)
        }
    }

    /// How many rows are left, as a lower and an upper bound.
    pub fn size_hint(&self) -> (r: (usize, Option<usize>))
        requires
            self.pos() <= self.end(),
        ensures
            r.0 == self.end() - self.pos(),
            r.1 == Some(r.0),
    {
        let s = self.end.to_usize() - self.i.to_usize();
        (s, Some(s))
    }

    /// All the rows that are left, in ascending order.
    pub fn collect(self) -> (rows: Vec<GenericRowId<T>>)
        ensures
            rows@.map_values(|r: GenericRowId<T>| r@) == self.remaining(),
    {
        let mut it = self;
        let mut rows: Vec<GenericRowId<T>> = Vec::new();
        loop
            invariant
                it.end() == self.end(),
                self.pos() <= it.pos(),
                it.pos() <= self.end() || it.pos() == self.pos(),
                rows@.map_values(|r: GenericRowId<T>| r@) == positions(self.pos(), it.pos()),
                rows@.len() == it.pos() - self.pos(),
            ensures
                it.pos() >= it.end(),
            decreases it.end() - it.pos(),
        {
            match it.next() {
                None => {
                    break ;
                },
                Some(row) => {
                    let ghost before = rows@;
                    rows.push(row);
                    assert(rows@.map_values(|r: GenericRowId<T>| r@) =~= positions(
                        self.pos(),
                        it.pos(),
                    )) by {
                        assert(before.map_values(|r: GenericRowId<T>| r@) == positions(
                            self.pos(),
                            (it.pos() - 1) as nat,
                        ));
                        assert(rows@ == before.push(row));
                        assert forall|k: int| 0 <= k < rows@.len() implies rows@.map_values(
                            |r: GenericRowId<T>| r@,
                        )[k] == positions(self.pos(), it.pos())[k] by {
                            if k < before.len() {
                                assert(before.map_values(|r: GenericRowId<T>| r@)[k] == before[k]@);
                            }
                        }
                    }
                },
            }
        }
        assert(positions(self.pos(), it.pos()) =~= self.remaining());
        rows
    }
}

/// A cursor over the rows of a range that lies within the bounds of a table.
/// It yields every row of the range, deleted or not; `ConsistentIter`
/// leaves the deleted ones out.
pub struct CheckedIter<'a, T: LockedTable> {
    table: &'a T,
    i: IdxOf<T::Row>,
    end: IdxOf<T::Row>,
}

impl<'a, T: LockedTable> Clone for CheckedIter<'a, T> {
    fn clone(&self) -> (r: Self)
        ensures
            r == *self,
    {
        proof {
            use_type_invariant(self);
        }
        CheckedIter { table: self.table, i: self.i, end: self.end }
    }
}

impl<'a, T: LockedTable> Copy for CheckedIter<'a, T> {

}

impl<'a, T: LockedTable> CheckedIter<'a, T> {
    #[verifier::type_invariant]
    spec fn within_bounds(self) -> bool {
        self.end.value() <= self.table.spec_len()
    }

    /// The table whose rows the cursor walks.
    pub closed spec fn table(self) -> &'a T {
        self.table
    }

    /// The position of the row that comes next.
    pub closed spec fn pos(self) -> nat {
        self.i.value()
    }

    /// The position at which the cursor stops.
    pub closed spec fn end(self) -> nat {
        self.end.value()
    }

    /// The positions that the cursor has yet to yield.
    pub open spec fn remaining(self) -> Seq<nat> {
        positions(self.pos(), self.end())
    }

    /// The table whose rows the cursor walks.
    pub fn get_table(&self) -> (t: &'a T)
        ensures
            t == self.table(),
            self.end() <= t.spec_len(),
    {
        proof {
            use_type_invariant(self);
        }
        self.table
    }

    /// Whether `slice` can be walked on a table of `len` rows: it must end
    /// within the table, and start within it unless it is empty.
    pub open spec fn fits(slice: RowRange<GenericRowId<T::Row>>, len: nat) -> bool {
        &&& slice.start@ < len || slice.start@ == slice.end@
        &&& slice.end@ <= len
    }

    /// A cursor over `slice` on `table`. A range that reaches past the
    /// table's length is refused.
    pub fn from(table: &'a T, slice: RowRange<GenericRowId<T::Row>>) -> (r: Result<
        Self,
        TableError,
    >)
        ensures
            Self::fits(slice, table.spec_len()) <==> r is Ok,
            r matches Ok(it) ==> it.table() == table && it.pos() == slice.start@ && it.end()
                == slice.end@,
            r matches Err(e) ==> e == TableError::OutOfBounds,
    {
        let len = table.len();
        let start = slice.start.to_usize();
        let end = slice.end.to_usize();
        if !(start < len || start == end) || !(end <= len) {
            return Err(TableError::OutOfBounds);
        }
        Ok(CheckedIter { table, i: slice.start.to_raw(), end: slice.end.to_raw() })
    }

    /// The range of rows that are left, without its tie to the table.
    pub fn uncheck(self) -> (r: RowRange<GenericRowId<T::Row>>)
        ensures
            r.start@ == self.pos(),
            r.end@ == self.end(),
            r.end@ <= self.table().spec_len(),
    {
        proof {
            use_type_invariant(&self);
        }
        RowRange { start: GenericRowId::new(self.i), end: GenericRowId::new(self.end) }
    }

    /// Move the cursor forward by `n` positions.
    pub fn skip_fast(self, n: usize) -> (it: Self)
        requires
            self.pos() + n <= IdxOf::<T::Row>::spec_max(),
        ensures
            it.table() == self.table(),
            it.pos() == self.pos() + n,
            it.end() == self.end(),
    {
        proof {
            use_type_invariant(&self);
            self.i.lemma_in_range();
        }
        CheckedIter {
            table: self.table,
            i: GenericRowId::<T::Row>::from_usize(self.i.to_usize() + n).to_raw(),
            end: self.end,
        }
    }

    /// The next row of the range, or `None` when the range is used up. The
    /// row lies within the table; it may be a deleted one.
    #[inline]
    pub fn next(&mut self) -> (r: Option<GenericRowId<T::Row>>)
        ensures
            final(self).table() == old(self).table(),
            final(self).end() == old(self).end(),
            old(self).pos() < old(self).end() <==> r is Some,
            r matches Some(row) ==> row@ == old(self).pos() && final(self).pos() == old(self).pos()
                + 1 && row@ < old(self).table().spec_len(),
            r is None ==> final(self).pos() == old(self).pos(),
    {
        proof {
            use_type_invariant(&*self);
        }
        if self.i.to_usize() >= self.end.to_usize() {
            None
        } else {
            let ret = GenericRowId { i: self.i };
            proof {
                self.end.lemma_in_range();
            }
            self.i = ret.next().to_raw();
            Some(ret)
        }
    }

    /// How many rows are left, as a lower and an upper bound.
    pub fn size_hint(&self) -> (r: (usize, Option<usize>))
        requires
            self.pos() <= self.end(),
        ensures
            r.0 == self.end() - self.pos(),
            r.1 == Some(r.0),
    {
        let s = self.end.to_usize() - self.i.to_usize();
        (s, Some(s))
    }
}

/// The positions from `from` up to `to` are those that are not before
/// `from` and are before `to`.
pub proof fn lemma_positions(from: nat, to: nat, k: nat)
    ensures
        positions(from, to).contains(k) <==> from <= k < to,
{
    let all = positions(from, to);
    if from <= k < to {
        assert(all[k - from] == k);
    }
    if all.contains(k) {
        let i = choose|i: int| 0 <= i < all.len() && all[i] == k;
        assert(all[i] == from + i);
    }
}

} // verus!
