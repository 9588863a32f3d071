//! Rows that refer to rows of another table.
//!
//! A table that depends on another one stores handles of the other table's
//! rows in one of its columns, and keeps an index of that column: the
//! references in the order of the rows they refer to. When rows of the other
//! table change, the rows that refer to them are found by a sorted merge of
//! the changed ranges against the index.

use vstd::prelude::*;
use core::cmp::Ordering;
use crate::index::GenericRowId;
use crate::index::RowRange;
use crate::joincore::Join;
use crate::joincore::JoinCore;
use crate::sorted::ordered;
use crate::sorted::Keyed;
use crate::tables::GetTableName;
use crate::tracking::SelectRows;

verus! {

/// An entry of the index of a column of references: `row`, a row of the
/// table `D`, refers to `foreign`, a row of the table `F`.
pub struct Reference<F: GetTableName, D: GetTableName> {
    pub foreign: GenericRowId<F>,
    pub row: GenericRowId<D>,
}

impl<F: GetTableName, D: GetTableName> Clone for Reference<F, D> {
    fn clone(&self) -> (r: Self)
        ensures
            r == *self,
    {
        Reference { foreign: self.foreign, row: self.row }
    }
}

impl<F: GetTableName, D: GetTableName> Copy for Reference<F, D> {

}

/// References are ordered by the row they refer to.
impl<F: GetTableName, D: GetTableName> Keyed for Reference<F, D> {
    open spec fn key(self) -> int {
        self.foreign@ as int
    }

    fn le_key(&self, other: &Self) -> (b: bool) {
        self.foreign.to_usize() <= other.foreign.to_usize()
    }
}

/// Whether the row at position `k` lies in one of the ranges.
pub open spec fn covered<F: GetTableName>(selected: Seq<RowRange<GenericRowId<F>>>, k: nat) -> bool {
    exists|i: int| 0 <= i < selected.len() && (#[trigger] selected[i]).spec_contains(k)
}

/// The rows of the references that refer into one of the ranges, in the
/// order of the index.
pub open spec fn referring<F: GetTableName, D: GetTableName>(
    index: Seq<Reference<F, D>>,
    selected: Seq<RowRange<GenericRowId<F>>>,
) -> Seq<GenericRowId<D>>
    decreases index.len(),
{
    if index.len() == 0 {
        Seq::empty()
    } else if covered(selected, index.last().foreign@) {
        referring(index.drop_last(), selected).push(index.last().row)
    } else {
        referring(index.drop_last(), selected)
    }
}

/// How a range stands to a reference: the reference is ahead of the range
/// if it refers behind the range's end, behind it if it refers before the
/// range's start, and matches it if it refers into the range.
pub open spec fn range_to_reference<F: GetTableName, D: GetTableName>(
    range: RowRange<GenericRowId<F>>,
    reference: Reference<F, D>,
) -> Ordering {
    if reference.foreign@ < range.start@ {
        Ordering::Greater
    } else if reference.foreign@ >= range.end@ {
        Ordering::Less
    } else {
        Ordering::Equal
    }
}

/// The comparator of the merge of changed ranges against an index.
pub fn compare_range_to_reference<F: GetTableName, D: GetTableName>(
    range: &RowRange<GenericRowId<F>>,
    reference: &Reference<F, D>,
) -> (o: Ordering)
    ensures
        o == range_to_reference(*range, *reference),
{
    let to = reference.foreign.to_usize();
    if to < range.start.to_usize() {
        Ordering::Greater
    } else if to >= range.end.to_usize() {
        Ordering::Less
    } else {
        Ordering::Equal
    }
}

/// References that refer into none of the ranges add nothing to the rows
/// that refer into them.
proof fn lemma_referring_prefix<F: GetTableName, D: GetTableName>(
    index: Seq<Reference<F, D>>,
    selected: Seq<RowRange<GenericRowId<F>>>,
    n: int,
)
    requires
        0 <= n <= index.len(),
        forall|i: int| n <= i < index.len() ==> !covered(selected, (#[trigger] index[i]).foreign@),
    ensures
        referring(index, selected) == referring(index.take(n), selected),
    decreases index.len(),
{
    if n == index.len() {
        assert(index.take(n) =~= index);
    } else {
        assert(!covered(selected, index[index.len() - 1].foreign@));
        lemma_referring_prefix(index.drop_last(), selected, n);
        assert(index.drop_last().take(n) =~= index.take(n));
    }
}

/// One step of the merge of `range` against what is left of the index.
fn step<'a, F: GetTableName, D: GetTableName>(
    references: &mut JoinCore<'a, Reference<F, D>>,
    range: RowRange<GenericRowId<F>>,
) -> (j: Join<&'a Reference<F, D>>)
    ensures
        final(references).all() == old(references).all(),
        old(references).consumed() <= old(references).all().len(),
        match j {
            Join::Next => {
                &&& final(references).consumed() == old(references).consumed()
                &&& !old(references).exhausted() ==> old(references).head().foreign@
                    >= range.end@
            },
            Join::Stop => {
                &&& !old(references).exhausted()
                &&& final(references).consumed() == old(references).consumed() + 1
                &&& old(references).head().foreign@ < range.start@
            },
            Join::Match(reference) => {
                &&& !old(references).exhausted()
                &&& final(references).consumed() == old(references).consumed() + 1
                &&& *reference == old(references).head()
                &&& range.spec_contains(reference.foreign@)
            },
        },
{
    references.join(range, compare_range_to_reference::<F, D>)
}

/// The rows that refer to a row of one of the `selected` ranges, in the
/// order of the index. The index is in the order of the rows referred to,
/// and the ranges are in the order of their first rows.
pub fn select<F: GetTableName, D: GetTableName>(
    index: &[Reference<F, D>],
    selected: &SelectRows<F>,
) -> (rows: Vec<GenericRowId<D>>)
    requires
        ordered(index@),
        ordered(selected@),
    ensures
        rows@ == referring(index@, selected@),
{
    let mut rows: Vec<GenericRowId<D>> = Vec::new();
    let mut references = JoinCore::new(index);
    let mut k: usize = 0;
    assert(index@.take(0) =~= Seq::empty());
    while k < selected.len()
        invariant
            k <= selected@.len(),
            ordered(index@),
            ordered(selected@),
            references.all() == index@,
            references.consumed() <= index@.len(),
            rows@ == referring(index@.take(references.consumed() as int), selected@),
            // What is left of the index lies behind the ranges that are done.
            forall|q: int, i: int|
                0 <= q < k && references.consumed() <= i < index@.len() ==> (
                #[trigger] index@[i]).foreign@ >= (#[trigger] selected@[q]).end@,
        decreases selected@.len() - k,
    {
        let range = selected[k];
        loop
            invariant
                k < selected@.len(),
                range == selected@[k as int],
                ordered(index@),
                ordered(selected@),
                references.all() == index@,
                references.consumed() <= index@.len(),
                rows@ == referring(index@.take(references.consumed() as int), selected@),
                forall|q: int, i: int|
                    0 <= q < k && references.consumed() <= i < index@.len() ==> (
                    #[trigger] index@[i]).foreign@ >= (#[trigger] selected@[q]).end@,
            ensures
                references.all() == index@,
                references.consumed() <= index@.len(),
                rows@ == referring(index@.take(references.consumed() as int), selected@),
                forall|q: int, i: int|
                    0 <= q <= k && references.consumed() <= i < index@.len() ==> (
                    #[trigger] index@[i]).foreign@ >= (#[trigger] selected@[q]).end@,
            decreases index@.len() - references.consumed(),
        {
            let ghost n = references.consumed() as int;
            let ghost had = rows@;
            match step(&mut references, range) {
                Join::Next => {
                    proof {
                        assert forall|q: int, i: int|
                            0 <= q <= k && references.consumed() <= i < index@.len() implies (
                        #[trigger] index@[i]).foreign@ >= (#[trigger] selected@[q]).end@ by {
                            if q == k {
                                assert(index@[n].key() <= index@[i].key());
                            }
                        }
                    }
                    break ;
                },
                Join::Stop => {
                    proof {
                        // The reference refers before this range, so before
                        // every later one; it lies behind the earlier ones.
                        let upto = index@.take(n + 1);
                        assert(upto.drop_last() =~= index@.take(n));
                        assert(upto.last() == index@[n]);
                        if covered(selected@, index@[n].foreign@) {
                            let q = choose|q: int|
                                0 <= q < selected@.len() && (
                                #[trigger] selected@[q]).spec_contains(index@[n].foreign@);
                            if q < k {
                                assert(index@[n].foreign@ >= selected@[q].end@);
                            } else if q > k {
                                assert(selected@[k as int].key() <= selected@[q].key());
                            }
                        }
                    }
                },
                Join::Match(reference) => {
                    rows.push(reference.row);
                    proof {
                        let upto = index@.take(n + 1);
                        assert(upto.drop_last() =~= index@.take(n));
                        assert(upto.last() == index@[n]);
                        assert(selected@[k as int].spec_contains(index@[n].foreign@));
                    }
                },
            }
        }
        k += 1;
    }
    proof {
        let n = references.consumed() as int;
        assert forall|i: int| n <= i < index@.len() implies !covered(
            selected@,
            (#[trigger] index@[i]).foreign@,
        ) by {
            if covered(selected@, index@[i].foreign@) {
                let q = choose|q: int|
                    0 <= q < selected@.len() && (#[trigger] selected@[q]).spec_contains(
                        index@[i].foreign@,
                    );
                assert(index@[i].foreign@ >= selected@[q].end@);
            }
        }
        lemma_referring_prefix(index@, selected@, n);
    }
    rows
}

} // verus!
