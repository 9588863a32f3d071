//! Change tracking: the log of structural changes to a table, and its
//! delivery to the trackers of the tables that depend on it.
//!
//! While a writer edits the structure of a tracked table (rows are
//! inserted, deleted or moved), the ranges of rows it touches are entered in
//! the table's log, and the table is dirty. A flush hands the logged ranges
//! to every tracker, as one batch, and leaves the table clean. To release a
//! dirty table without a flush is an error, unless the writer has said that
//! it means to.

use vstd::prelude::*;
use crate::domain::Universe;
use crate::index::GenericRowId;
use crate::index::RowRange;
use crate::sorted::sort;
use crate::sorted::sorted;
use crate::tables::GetTableName;
use crate::tables::TableError;

verus! {

/// The kind of structural change that a flush reports.
#[derive(Clone, Copy, Debug, PartialEq, Eq, Structural)]
pub enum Event {
    /// Rows were inserted.
    Create,
    /// Rows were deleted.
    Delete,
    /// Rows were moved to another place.
    Move,
}

/// The ranges of rows that a batch of changes touched.
pub type SelectRows<T> = Vec<RowRange<GenericRowId<T>>>;

/// An observer of the structural changes to the table `Foreign`.
pub trait Tracker {
    /// The table that is observed.
    type Foreign: GetTableName;

    /// The batches that the tracker has handled, the oldest first.
    spec fn handled(&self) -> Seq<(Event, Seq<RowRange<GenericRowId<Self::Foreign>>>)>;

    /// Whether the tracker wants the ranges of a batch in the order of the
    /// rows, and not in the order in which the changes were made.
    spec fn wants_sorted(&self) -> bool;

    fn sort(&self) -> (b: bool)
        ensures
            b == self.wants_sorted(),
    ;

    /// Take note of a batch of changes of one kind.
    fn handle(&mut self, universe: &Universe, event: Event, selected: &SelectRows<Self::Foreign>)
        ensures
            final(self).handled() == old(self).handled().push((event, selected@)),
            final(self).wants_sorted() == old(self).wants_sorted(),
    ;
}

/// The log of the structural changes to one tracked table since its last
/// flush. The table is clean while the log is empty, and dirty otherwise.
pub struct EventLog<T: GetTableName> {
    pending: SelectRows<T>,
    suppressed: bool,
}

impl<T: GetTableName> EventLog<T> {
    /// The ranges of rows that were changed and not yet flushed, in the
    /// order in which the changes were made.
    pub closed spec fn pending(self) -> Seq<RowRange<GenericRowId<T>>> {
        self.pending@
    }

    /// Whether the writer has said that the next release may leave changes
    /// unflushed.
    pub closed spec fn suppressed(self) -> bool {
        self.suppressed
    }

    /// Whether changes are waiting for a flush.
    pub open spec fn dirty(self) -> bool {
        self.pending().len() > 0
    }

    /// What a tracker is handed in a flush of the log: the pending ranges,
    /// in the order of the rows where the tracker wants them so, else in the
    /// order of the changes.
    pub open spec fn batch(self, in_order: bool) -> Seq<RowRange<GenericRowId<T>>> {
        if in_order {
            sorted(self.pending())
        } else {
            self.pending()
        }
    }

    /// The log of a clean table.
    pub fn new() -> (log: Self)
        ensures
            !log.dirty(),
            !log.suppressed(),
    {
        EventLog { pending: Vec::new(), suppressed: false }
    }

    /// Whether changes are waiting for a flush.
    pub fn is_dirty(&self) -> (b: bool)
        ensures
            b == self.dirty(),
    {
        self.pending.len() > 0
    }

    /// Enter a structural change to the rows of `rows`: the table is dirty
    /// afterwards.
    pub fn record(&mut self, rows: RowRange<GenericRowId<T>>)
        ensures
            final(self).pending() == old(self).pending().push(rows),
            final(self).suppressed() == old(self).suppressed(),
            final(self).dirty(),
    {
        self.pending.push(rows);
    }

    /// Say that the next release may leave changes unflushed.
    pub fn noflush(&mut self)
        ensures
            final(self).pending() == old(self).pending(),
            final(self).suppressed(),
    {
        self.suppressed = true;
    }

    /// Release the table. A dirty table must have been flushed, or the
    /// release must have been announced with `noflush`; the announcement
    /// holds for this one release. The pending changes stay in the log.
    pub fn release(&mut self) -> (r: Result<(), TableError>)
        ensures
            final(self).pending() == old(self).pending(),
            !final(self).suppressed(),
            old(self).dirty() && !old(self).suppressed() <==> r is Err,
            r matches Err(e) ==> e == TableError::Unflushed,
    {
        let unflushed = self.pending.len() > 0 && !self.suppressed;
        self.suppressed = false;
        if unflushed {
            Err(TableError::Unflushed)
        } else {
            Ok(())
        }
    }

    /// Hand the pending changes to every tracker, as one batch of the kind
    /// `event`, and empty the log: the table is clean afterwards. A tracker
    /// that wants it gets the ranges in the order of the rows, the others
    /// in the order of the changes. A clean table has nothing to hand out.
    pub fn flush<Tr: Tracker<Foreign = T>>(
        &mut self,
        universe: &Universe,
        event: Event,
        trackers: &mut Vec<Tr>,
    )
        ensures
            !final(self).dirty(),
            final(self).suppressed() == old(self).suppressed(),
            final(trackers)@.len() == old(trackers)@.len(),
            forall|i: int|
                0 <= i < old(trackers)@.len() ==> {
                    let before = old(trackers)@[i];
                    &&& (#[trigger] final(trackers)@[i]).wants_sorted() == before.wants_sorted()
                    &&& final(trackers)@[i].handled() == if old(self).dirty() {
                        before.handled().push((event, old(self).batch(before.wants_sorted())))
                    } else {
                        before.handled()
                    }
                },
    {
        if self.pending.len() == 0 {
            return ;
        }
        // The ranges in the order of the rows: made when the first tracker
        // asks for them.
        let mut in_order: Option<SelectRows<T>> = None;
        let mut i: usize = 0;
        while i < trackers.len()
            invariant
                i <= trackers@.len(),
                trackers@.len() == old(trackers)@.len(),
                self.pending@ == old(self).pending(),
                old(self).dirty(),
                in_order matches Some(ranges) ==> ranges@ == sorted(self.pending@),
                forall|k: int|
                    0 <= k < i ==> {
                        let before = old(trackers)@[k];
                        &&& (#[trigger] trackers@[k]).wants_sorted() == before.wants_sorted()
                        &&& trackers@[k].handled() == before.handled().push(
                            (event, old(self).batch(before.wants_sorted())),
                        )
                    },
                forall|k: int| i <= k < trackers@.len() ==> trackers@[k] == old(trackers)@[k],
            decreases trackers@.len() - i,
        {
            let tracker = &mut trackers[i];
            if tracker.sort() {
                if in_order.is_none() {
                    in_order = Some(sort(&self.pending));
                }
                match &in_order {
                    Some(ranges) => tracker.handle(universe, event, ranges),
                    None => {},
                }
            } else {
                tracker.handle(universe, event, &self.pending);
            }
            i += 1;
        }
        self.pending = Vec::new();
    }
}

/// A tracker that keeps every batch it is handed, for a consumer that reads
/// them later.
pub struct Recorder<T: GetTableName> {
    sorted: bool,
    batches: Vec<(Event, SelectRows<T>)>,
}

impl<T: GetTableName> Recorder<T> {
    /// A tracker that has handled nothing. It wants its batches in the
    /// order of the rows if `sorted` is set.
    pub fn new(sorted: bool) -> (tracker: Self)
        ensures
            tracker.handled().len() == 0,
            tracker.wants_sorted() == sorted,
    {
        Recorder { sorted, batches: Vec::new() }
    }

    /// The batches that were handled, the oldest first.
    pub fn batches(&self) -> (batches: &Vec<(Event, SelectRows<T>)>)
        ensures
            batches@.len() == self.handled().len(),
            forall|i: int|
                0 <= i < batches@.len() ==> (#[trigger] batches@[i]).0 == self.handled()[i].0
                    && batches@[i].1@ == self.handled()[i].1,
    {
        &self.batches
    }
}

impl<T: GetTableName> Tracker for Recorder<T> {
    type Foreign = T;

    closed spec fn handled(&self) -> Seq<(Event, Seq<RowRange<GenericRowId<T>>>)> {
        Seq::new(self.batches@.len(), |i: int| (self.batches@[i].0, self.batches@[i].1@))
    }

    closed spec fn wants_sorted(&self) -> bool {
        self.sorted
    }

    fn sort(&self) -> (b: bool) {
        self.sorted
    }

    fn handle(&mut self, universe: &Universe, event: Event, selected: &SelectRows<T>) {
        let mut kept: SelectRows<T> = Vec::new();
        let mut i: usize = 0;
        while i < selected.len()
            invariant
                i <= selected@.len(),
                kept@ == selected@.take(i as int),
            decreases selected@.len() - i,
        {
            kept.push(selected[i]);
            assert(selected@.take(i + 1) =~= selected@.take(i as int).push(selected@[i as int]));
            i += 1;
        }
        assert(selected@.take(i as int) =~= selected@);
        self.batches.push((event, kept));
        assert(self.handled() =~= old(self).handled().push((event, selected@)));
    }
}

} // verus!
