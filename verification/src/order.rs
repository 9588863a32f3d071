//! The order of row handles: that of their positions, whether the handles
//! are checked or not.

use vstd::prelude::*;
use vstd::std_specs::cmp::PartialEqSpecImpl;
use vstd::std_specs::cmp::PartialOrdSpecImpl;
use core::cmp::Ordering;
use crate::index::CheckedRowId;
use crate::index::GenericRowId;
use crate::tables::GetTableName;
use crate::tables::LockedTable;

verus! {

/// How the position `a` compares to the position `b`.
pub open spec fn order_of(a: nat, b: nat) -> Ordering {
    if a < b {
        Ordering::Less
    } else if a == b {
        Ordering::Equal
    } else {
        Ordering::Greater
    }
}

/// Compare two positions.
fn compare_positions(a: usize, b: usize) -> (o: Ordering)
    ensures
        forall|x: nat, y: nat| x == a && y == b ==> o == #[trigger] order_of(x, y),
{
    if a < b {
        Ordering::Less
    } else if a == b {
        Ordering::Equal
    } else {
        Ordering::Greater
    }
}

impl<T: GetTableName> PartialEq for GenericRowId<T> {
    fn eq(&self, other: &Self) -> (r: bool) {
        self.to_usize() == other.to_usize()
    }
}

impl<T: GetTableName> PartialEqSpecImpl for GenericRowId<T> {
    open spec fn obeys_eq_spec() -> bool {
        true
    }

    open spec fn eq_spec(&self, other: &Self) -> bool {
        self@ == other@
    }
}

impl<T: GetTableName> Eq for GenericRowId<T> {

}

impl<T: GetTableName> PartialOrd for GenericRowId<T> {
    fn partial_cmp(&self, other: &Self) -> (r: Option<Ordering>) {
        Some(compare_positions(self.to_usize(), other.to_usize()))
    }
}

impl<T: GetTableName> PartialOrdSpecImpl for GenericRowId<T> {
    open spec fn obeys_partial_cmp_spec() -> bool {
        true
    }

    open spec fn partial_cmp_spec(&self, other: &Self) -> Option<Ordering> {
        Some(order_of(self@, other@))
    }
}

impl<T: GetTableName> GenericRowId<T> {
    /// The order of two rows of one table is that of their positions.
    pub fn cmp(&self, other: &Self) -> (o: Ordering)
        ensures
            o == order_of(self@, other@),
    {
        compare_positions(self.to_usize(), other.to_usize())
    }
}

impl<'a, T: LockedTable> PartialEq for CheckedRowId<'a, T> {
    fn eq(&self, other: &Self) -> (r: bool) {
        self.to_usize() == other.to_usize()
    }
}

impl<'a, T: LockedTable> PartialEqSpecImpl for CheckedRowId<'a, T> {
    open spec fn obeys_eq_spec() -> bool {
        true
    }

    open spec fn eq_spec(&self, other: &Self) -> bool {
        self.index() == other.index()
    }
}

impl<'a, T: LockedTable> Eq for CheckedRowId<'a, T> {

}

impl<'a, T: LockedTable> PartialOrd for CheckedRowId<'a, T> {
    fn partial_cmp(&self, other: &Self) -> (r: Option<Ordering>) {
        Some(compare_positions(self.to_usize(), other.to_usize()))
    }
}

impl<'a, T: LockedTable> PartialOrdSpecImpl for CheckedRowId<'a, T> {
    open spec fn obeys_partial_cmp_spec() -> bool {
        true
    }

    open spec fn partial_cmp_spec(&self, other: &Self) -> Option<Ordering> {
        Some(order_of(self.index(), other.index()))
    }
}

impl<'a, T: LockedTable> CheckedRowId<'a, T> {
    /// The order of two rows of one table is that of their positions.
    pub fn cmp(&self, other: &Self) -> (o: Ordering)
        ensures
            o == order_of(self.index(), other.index()),
    {
        compare_positions(self.to_usize(), other.to_usize())
    }
}

// A checked and an unchecked handle of one table compare by position alone.

impl<'a, T: LockedTable> PartialEq<GenericRowId<T::Row>> for CheckedRowId<'a, T> {
    fn eq(&self, rhs: &GenericRowId<T::Row>) -> (r: bool) {
        self.to_usize() == rhs.to_usize()
    }
}

impl<'a, T: LockedTable> PartialEqSpecImpl<GenericRowId<T::Row>> for CheckedRowId<'a, T> {
    open spec fn obeys_eq_spec() -> bool {
        true
    }

    open spec fn eq_spec(&self, rhs: &GenericRowId<T::Row>) -> bool {
        self.index() == rhs@
    }
}

impl<'a, T: LockedTable> PartialOrd<GenericRowId<T::Row>> for CheckedRowId<'a, T> {
    fn partial_cmp(&self, rhs: &GenericRowId<T::Row>) -> (r: Option<Ordering>) {
        Some(compare_positions(self.to_usize(), rhs.to_usize()))
    }
}

impl<'a, T: LockedTable> PartialOrdSpecImpl<GenericRowId<T::Row>> for CheckedRowId<'a, T> {
    open spec fn obeys_partial_cmp_spec() -> bool {
        true
    }

    open spec fn partial_cmp_spec(&self, rhs: &GenericRowId<T::Row>) -> Option<Ordering> {
        Some(order_of(self.index(), rhs@))
    }
}

impl<'a, T: LockedTable> PartialEq<CheckedRowId<'a, T>> for GenericRowId<T::Row> {
    fn eq(&self, rhs: &CheckedRowId<'a, T>) -> (r: bool) {
        self.to_usize() == rhs.to_usize()
    }
}

impl<'a, T: LockedTable> PartialEqSpecImpl<CheckedRowId<'a, T>> for GenericRowId<T::Row> {
    open spec fn obeys_eq_spec() -> bool {
        true
    }

    open spec fn eq_spec(&self, rhs: &CheckedRowId<'a, T>) -> bool {
        self@ == rhs.index()
    }
}

impl<'a, T: LockedTable> PartialOrd<CheckedRowId<'a, T>> for GenericRowId<T::Row> {
    fn partial_cmp(&self, rhs: &CheckedRowId<'a, T>) -> (r: Option<Ordering>) {
        Some(compare_positions(self.to_usize(), rhs.to_usize()))
    }
}

impl<'a, T: LockedTable> PartialOrdSpecImpl<CheckedRowId<'a, T>> for GenericRowId<T::Row> {
    open spec fn obeys_partial_cmp_spec() -> bool {
        true
    }

    open spec fn partial_cmp_spec(&self, rhs: &CheckedRowId<'a, T>) -> Option<Ordering> {
        Some(order_of(self@, rhs.index()))
    }
}

/// The comparator of merges over the rows of one table: the order of their
/// positions.
pub fn row_order<T: GetTableName>(l: &GenericRowId<T>, r: &GenericRowId<T>) -> (o: Ordering)
    ensures
        o == order_of(l@, r@),
{
    l.cmp(r)
}

} // verus!
