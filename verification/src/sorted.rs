//! Rows in the order of their keys: sorting, and merging into a sorted
//! table.
//!
//! A sorted table keeps its rows in the order of their keys, rows with the
//! same key in the order in which they came. New rows are merged in: they
//! are sorted among themselves, and then the two sorted sequences are
//! merged, which takes one pass over both.

use vstd::prelude::*;
use crate::index::GenericRowId;
use crate::index::RowRange;
use crate::tables::GetTableName;

verus! {

/// A row, or a part of one, that has a key by which rows are ordered.
pub trait Keyed: Copy {
    /// The key of the row.
    spec fn key(self) -> int;

    /// Whether this row may stand before `other`: its key is not greater.
    fn le_key(&self, other: &Self) -> (b: bool)
        ensures
            b == (self.key() <= other.key()),
    ;
}

impl Keyed for u8 {
    open spec fn key(self) -> int {
        self as int
    }

    fn le_key(&self, other: &Self) -> (b: bool) {
        *self <= *other
    }
}

impl Keyed for u16 {
    open spec fn key(self) -> int {
        self as int
    }

    fn le_key(&self, other: &Self) -> (b: bool) {
        *self <= *other
    }
}

impl Keyed for u32 {
    open spec fn key(self) -> int {
        self as int
    }

    fn le_key(&self, other: &Self) -> (b: bool) {
        *self <= *other
    }
}

impl Keyed for u64 {
    open spec fn key(self) -> int {
        self as int
    }

    fn le_key(&self, other: &Self) -> (b: bool) {
        *self <= *other
    }
}

impl Keyed for usize {
    open spec fn key(self) -> int {
        self as int
    }

    fn le_key(&self, other: &Self) -> (b: bool) {
        *self <= *other
    }
}

impl Keyed for i32 {
    open spec fn key(self) -> int {
        self as int
    }

    fn le_key(&self, other: &Self) -> (b: bool) {
        *self <= *other
    }
}

impl Keyed for i64 {
    open spec fn key(self) -> int {
        self as int
    }

    fn le_key(&self, other: &Self) -> (b: bool) {
        *self <= *other
    }
}

/// A row of a sorted table: the value of its key column, and the rest of it.
#[derive(Clone, Copy, Debug)]
pub struct Entry<K, V> {
    pub key: K,
    pub value: V,
}

/// An entry is ordered by its key.
impl<K: Keyed, V: Copy> Keyed for Entry<K, V> {
    open spec fn key(self) -> int {
        self.key.key()
    }

    fn le_key(&self, other: &Self) -> (b: bool) {
        self.key.le_key(&other.key)
    }
}

/// A range of rows is ordered by its first row.
impl<T: GetTableName> Keyed for RowRange<GenericRowId<T>> {
    open spec fn key(self) -> int {
        self.start@ as int
    }

    fn le_key(&self, other: &Self) -> (b: bool) {
        self.start.to_usize() <= other.start.to_usize()
    }
}

/// Whether the rows stand in the order of their keys.
pub open spec fn ordered<I: Keyed>(rows: Seq<I>) -> bool {
    forall|i: int, j: int| 0 <= i < j < rows.len() ==> rows[i].key() <= rows[j].key()
}

/// `rows` with `row` entered behind the last row whose key is not greater.
pub open spec fn inserted<I: Keyed>(rows: Seq<I>, row: I) -> Seq<I>
    decreases rows.len(),
{
    if rows.len() == 0 {
        seq![row]
    } else if rows.last().key() <= row.key() {
        rows.push(row)
    } else {
        inserted(rows.drop_last(), row).push(rows.last())
    }
}

/// `rows` in the order of their keys. Rows with the same key keep their
/// order.
pub open spec fn sorted<I: Keyed>(rows: Seq<I>) -> Seq<I>
    decreases rows.len(),
{
    if rows.len() == 0 {
        rows
    } else {
        inserted(sorted(rows.drop_last()), rows.last())
    }
}

/// The two sequences merged into one: at each step the first row of `old`
/// is taken unless the first row of `new` has a smaller key.
pub open spec fn merged<I: Keyed>(old: Seq<I>, new: Seq<I>) -> Seq<I>
    decreases old.len() + new.len(),
{
    if old.len() == 0 {
        new
    } else if new.len() == 0 {
        old
    } else if old[0].key() <= new[0].key() {
        seq![old[0]] + merged(old.drop_first(), new)
    } else {
        seq![new[0]] + merged(old, new.drop_first())
    }
}

/// To enter a row in rows that are in order leaves them in order, and adds
/// just that row.
pub proof fn lemma_inserted<I: Keyed>(rows: Seq<I>, row: I)
    requires
        ordered(rows),
    ensures
        ordered(inserted(rows, row)),
        inserted(rows, row).to_multiset() == rows.to_multiset().insert(row),
        inserted(rows, row).len() == rows.len() + 1,
    decreases rows.len(),
{
    broadcast use vstd::seq_lib::group_to_multiset_ensures;

    let out = inserted(rows, row);
    if rows.len() == 0 {
        assert(out =~= Seq::empty().push(row));
    } else if rows.last().key() <= row.key() {
    } else {
        let front = rows.drop_last();
        let inner = inserted(front, row);
        lemma_inserted(front, row);
        assert(rows =~= front.push(rows.last()));
        assert forall|i: int, j: int| 0 <= i < j < out.len() implies out[i].key()
            <= out[j].key() by {
            if j == out.len() - 1 {
                // every row of `inner` is `row` or one of `front`
                assert(inner.to_multiset().count(inner[i]) > 0);
                if inner[i] != row {
                    assert(front.to_multiset().count(inner[i]) > 0);
                    let k = choose|k: int| 0 <= k < front.len() && front[k] == inner[i];
                    assert(rows[k].key() <= rows[rows.len() - 1].key());
                }
            } else {
                assert(inner[i].key() <= inner[j].key());
            }
        }
    }
}

/// Sorting puts the rows in the order of their keys, and neither adds nor
/// drops a row.
pub proof fn lemma_sorted<I: Keyed>(rows: Seq<I>)
    ensures
        ordered(sorted(rows)),
        sorted(rows).to_multiset() == rows.to_multiset(),
        sorted(rows).len() == rows.len(),
    decreases rows.len(),
{
    broadcast use vstd::seq_lib::group_to_multiset_ensures;

    if rows.len() > 0 {
        lemma_sorted(rows.drop_last());
        lemma_inserted(sorted(rows.drop_last()), rows.last());
        assert(rows =~= rows.drop_last().push(rows.last()));
    }
}

/// Merging holds every row of both sequences, and no other. Where both
/// sequences are in order, so is what they are merged into.
pub proof fn lemma_merged<I: Keyed>(old: Seq<I>, new: Seq<I>)
    ensures
        merged(old, new).len() == old.len() + new.len(),
        merged(old, new).to_multiset() == old.to_multiset().add(new.to_multiset()),
        ordered(old) && ordered(new) ==> ordered(merged(old, new)),
        merged(old, new).len() > 0 ==> (old.len() > 0 && merged(old, new)[0] == old[0]) || (
        new.len() > 0 && merged(old, new)[0] == new[0]),
    decreases old.len() + new.len(),
{
    broadcast use vstd::seq_lib::group_to_multiset_ensures;

    let out = merged(old, new);
    if old.len() == 0 {
        assert(old.to_multiset() =~= vstd::multiset::Multiset::empty());
        assert(out.to_multiset() =~= old.to_multiset().add(new.to_multiset()));
    } else if new.len() == 0 {
        assert(new.to_multiset() =~= vstd::multiset::Multiset::empty());
        assert(out.to_multiset() =~= old.to_multiset().add(new.to_multiset()));
    } else if old[0].key() <= new[0].key() {
        let rest = merged(old.drop_first(), new);
        lemma_merged(old.drop_first(), new);
        assert(old =~= seq![old[0]] + old.drop_first());
        assert(out =~= seq![old[0]] + rest);
        lemma_cons_multiset(old[0], old.drop_first());
        lemma_cons_multiset(old[0], rest);
        assert(out.to_multiset() =~= old.to_multiset().add(new.to_multiset()));
        if ordered(old) && ordered(new) {
            assert(ordered(old.drop_first())) by {
                let tail = old.drop_first();
                assert forall|i: int, j: int| 0 <= i < j < tail.len() implies tail[i].key()
                    <= tail[j].key() by {
                    assert(old[i + 1].key() <= old[j + 1].key());
                }
            }
            assert forall|i: int, j: int| 0 <= i < j < out.len() implies out[i].key()
                <= out[j].key() by {
                if i == 0 {
                    lemma_least_of_merged(old[0], old.drop_first(), new, j - 1);
                } else {
                    assert(rest[i - 1].key() <= rest[j - 1].key());
                }
            }
        }
    } else {
        let rest = merged(old, new.drop_first());
        lemma_merged(old, new.drop_first());
        assert(new =~= seq![new[0]] + new.drop_first());
        assert(out =~= seq![new[0]] + rest);
        lemma_cons_multiset(new[0], new.drop_first());
        lemma_cons_multiset(new[0], rest);
        assert(out.to_multiset() =~= old.to_multiset().add(new.to_multiset()));
        if ordered(old) && ordered(new) {
            assert(ordered(new.drop_first())) by {
                let tail = new.drop_first();
                assert forall|i: int, j: int| 0 <= i < j < tail.len() implies tail[i].key()
                    <= tail[j].key() by {
                    assert(new[i + 1].key() <= new[j + 1].key());
                }
            }
            assert forall|i: int, j: int| 0 <= i < j < out.len() implies out[i].key()
                <= out[j].key() by {
                if i == 0 {
                    lemma_least_of_merged(new[0], old, new.drop_first(), j - 1);
                } else {
                    assert(rest[i - 1].key() <= rest[j - 1].key());
                }
            }
        }
    }
}

/// A row in front of a sequence counts once more in the multiset.
proof fn lemma_cons_multiset<I>(head: I, tail: Seq<I>)
    ensures
        (seq![head] + tail).to_multiset() == tail.to_multiset().insert(head),
{
    broadcast use vstd::seq_lib::group_to_multiset_ensures;

    let whole = seq![head] + tail;
    assert(whole =~= tail.insert(0, head));
    vstd::seq_lib::to_multiset_insert(tail, 0, head);
}

/// A row whose key is not greater than any key of two sequences is not
/// greater than any key of what they are merged into.
proof fn lemma_least_of_merged<I: Keyed>(least: I, old: Seq<I>, new: Seq<I>, at: int)
    requires
        forall|i: int| 0 <= i < old.len() ==> least.key() <= old[i].key(),
        forall|i: int| 0 <= i < new.len() ==> least.key() <= new[i].key(),
        0 <= at < merged(old, new).len(),
    ensures
        least.key() <= merged(old, new)[at].key(),
    decreases old.len() + new.len(),
{
    if old.len() == 0 || new.len() == 0 {
    } else if old[0].key() <= new[0].key() {
        if at > 0 {
            assert forall|i: int| 0 <= i < old.drop_first().len() implies least.key()
                <= old.drop_first()[i].key() by {
                assert(least.key() <= old[i + 1].key());
            }
            lemma_least_of_merged(least, old.drop_first(), new, at - 1);
        }
    } else {
        if at > 0 {
            assert forall|i: int| 0 <= i < new.drop_first().len() implies least.key()
                <= new.drop_first()[i].key() by {
                assert(least.key() <= new[i + 1].key());
            }
            lemma_least_of_merged(least, old, new.drop_first(), at - 1);
        }
    }
}

/// The rows in the order of their keys.
pub fn sort<I: Keyed>(rows: &Vec<I>) -> (out: Vec<I>)
    ensures
        out@ == sorted(rows@),
{
    let mut out: Vec<I> = Vec::new();
    let mut n: usize = 0;
    assert(rows@.take(0) =~= Seq::empty());
    while n < rows.len()
        invariant
            n <= rows@.len(),
            out@ == sorted(rows@.take(n as int)),
        decreases rows@.len() - n,
    {
        let row = rows[n];
        let ghost before = out@;
        // Find the place from the back: behind the last row whose key is
        // not greater.
        let mut at: usize = out.len();
        proof {
            assert(before.take(at as int) =~= before);
            assert(inserted(before, row) + before.skip(at as int) =~= inserted(before, row));
        }
        while at > 0 && !out[at - 1].le_key(&row)
            invariant
                at <= out@.len(),
                out@ == before,
                inserted(before, row) == inserted(before.take(at as int), row) + before.skip(
                    at as int,
                ),
            decreases at,
        {
            proof {
                let front = before.take(at as int);
                assert(front.drop_last() =~= before.take(at - 1));
                assert(before.skip(at - 1) =~= seq![before[at - 1]] + before.skip(at as int));
                assert(inserted(front, row) == inserted(front.drop_last(), row).push(
                    front.last(),
                ));
                assert(inserted(front.drop_last(), row).push(front.last()) + before.skip(
                    at as int,
                ) =~= inserted(before.take(at - 1), row) + before.skip(at - 1));
            }
            at -= 1;
        }
        proof {
            let front = before.take(at as int);
            if at > 0 {
                assert(front.last() == before[at - 1]);
            }
            assert(inserted(front, row) =~= front.push(row));
            assert(before.insert(at as int, row) =~= front.push(row) + before.skip(at as int));
            assert(rows@.take(n + 1).drop_last() =~= rows@.take(n as int));
        }
        out.insert(at, row);
        n += 1;
    }
    assert(rows@.take(n as int) =~= rows@);
    out
}

/// Merge rows into a sorted table: `new` is sorted, and then merged into
/// `rows` in one pass. Of rows with the same key, those of the table come
/// first. A table that was in order is in order afterwards.
pub fn merge<I: Keyed>(rows: &mut Vec<I>, new: Vec<I>)
    ensures
        final(rows)@ == merged(old(rows)@, sorted(new@)),
{
    let new = sort(&new);
    let mut out: Vec<I> = Vec::new();
    let mut i: usize = 0;
    let mut j: usize = 0;
    assert(rows@.skip(0) =~= rows@);
    assert(new@.skip(0) =~= new@);
    assert(out@ + merged(rows@, new@) =~= merged(rows@, new@));
    while i < rows.len() || j < new.len()
        invariant
            rows@ == old(rows)@,
            i <= rows@.len(),
            j <= new@.len(),
            out@.len() == i + j,
            merged(rows@, new@) == out@ + merged(rows@.skip(i as int), new@.skip(j as int)),
        decreases rows@.len() - i + new@.len() - j,
    {
        let ghost a = rows@.skip(i as int);
        let ghost b = new@.skip(j as int);
        let ghost had = out@;
        if j >= new.len() || (i < rows.len() && rows[i].le_key(&new[j])) {
            out.push(rows[i]);
            proof {
                assert(a.drop_first() =~= rows@.skip(i + 1));
                if b.len() == 0 {
                    assert(merged(a, b) == a);
                    assert(merged(a.drop_first(), b) == a.drop_first()) by {
                        if a.drop_first().len() == 0 {
                            assert(b =~= a.drop_first());
                        }
                    }
                    assert(a =~= seq![a[0]] + a.drop_first());
                }
                assert(merged(a, b) =~= seq![a[0]] + merged(a.drop_first(), b));
                assert(had + merged(a, b) =~= out@ + merged(a.drop_first(), b));
            }
            i += 1;
        } else {
            out.push(new[j]);
            proof {
                assert(b.drop_first() =~= new@.skip(j + 1));
                if a.len() == 0 {
                    assert(merged(a, b) == b);
                    assert(merged(a, b.drop_first()) == b.drop_first());
                    assert(b =~= seq![b[0]] + b.drop_first());
                }
                assert(merged(a, b) =~= seq![b[0]] + merged(a, b.drop_first()));
                assert(had + merged(a, b) =~= out@ + merged(a, b.drop_first()));
            }
            j += 1;
        }
    }
    assert(merged(rows@.skip(i as int), new@.skip(j as int)) =~= Seq::empty());
    assert(out@ =~= out@ + Seq::empty());
    *rows = out;
}

} // verus!
