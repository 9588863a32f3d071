use v11::index::Checkable;
use v11::index::CheckedRowId;
use v11::index::GenericRowId;
use v11::index::RowIdIterator;
use v11::index::RowRange;
use v11::rows::RowSet;
use v11::tables::DomainName;
use v11::tables::GenericTable;
use v11::tables::GetTableName;
use v11::tables::Guarantee;
use v11::tables::LockedTable;
use v11::tables::TableError;
use v11::tables::TableName;

struct TestName;

impl GetTableName for TestName {
    type Idx = usize;

    fn get_domain() -> DomainName {
        DomainName("test_domain")
    }

    fn get_name() -> TableName {
        TableName("test_table")
    }

    fn get_guarantee() -> Guarantee {
        Guarantee { consistent: false, sorted: false, append_only: false }
    }

    fn new_generic_table() -> GenericTable {
        GenericTable::new(Self::get_domain(), Self::get_name()).ok().unwrap()
    }
}

struct OldTestName;

impl GetTableName for OldTestName {
    type Idx = usize;

    fn get_domain() -> DomainName {
        DomainName("test_domain")
    }

    fn get_name() -> TableName {
        TableName("test_table")
    }

    fn get_guarantee() -> Guarantee {
        Guarantee { consistent: false, sorted: false, append_only: false }
    }

    fn new_generic_table() -> GenericTable {
        GenericTable::new(Self::get_domain(), Self::get_name()).ok().unwrap()
    }
}

/// A table of 14 rows.
fn test_table() -> RowSet<TestName> {
    let mut rows = RowSet::new();
    for _ in 0..14 {
        assert!(rows.push().is_some());
    }
    rows
}

type RR = RowRange<GenericRowId<TestName>>;

fn new(start: usize, end: usize) -> RR {
    RR { start: GenericRowId::new(start), end: GenericRowId::new(end) }
}

#[test]
fn index_test_formatting() {
    let gen: GenericRowId<TestName> = GenericRowId { i: 23 };
    assert_eq!("test_table[23]", gen.debug_string());
}

#[test]
fn tables_test_formatting() {
    let gen: GenericRowId<OldTestName> = GenericRowId { i: 23 };
    assert_eq!("test_table[23]", gen.debug_string());
}

#[test]
fn eq() {
    let my_table = test_table();
    let checked = CheckedRowId::fab(10, &my_table);
    let unchecked: GenericRowId<TestName> = GenericRowId { i: 10 };
    assert!(checked == unchecked);
    assert!(unchecked == checked);
}

#[test]
fn cmp() {
    let my_table = test_table();
    let checked = CheckedRowId::fab(3, &my_table);
    let unchecked: GenericRowId<TestName> = GenericRowId { i: 10 };
    assert!(checked < unchecked);
    assert!(unchecked >= checked);
}

#[test]
fn intersection() {
    let right = new(8, 9);
    let left = new(0, 8);
    assert!(right.intersects(right));
    assert!(left.intersects(left));
    assert!(!right.intersects(left));
    assert!(!left.intersects(right));
    let mid = new(3, 5);
    assert!(left.intersects(mid));
    assert!(mid.intersects(left));
    assert!(!right.intersects(mid));
    assert!(!mid.intersects(right));
}

#[test]
fn check_accepts_live_rows_only() {
    let mut table = test_table();
    table.delete_row(GenericRowId::new(5));
    assert_eq!(table.len(), 14);

    let row: GenericRowId<TestName> = GenericRowId::new(13);
    let checked = row.check(&table);
    assert!(checked.is_ok());
    let checked = checked.ok().unwrap();
    assert!(checked == row);
    assert_eq!(checked.to_usize(), 13);
    assert!(checked.uncheck() == row);
    assert_eq!(checked.debug_string(), "test_table[13]");

    let past: GenericRowId<TestName> = GenericRowId::new(14);
    assert_eq!(past.check(&table).err(), Some(TableError::OutOfBounds));
    let undefined: GenericRowId<TestName> = GenericRowId::default();
    assert_eq!(undefined.to_usize(), usize::MAX);
    assert_eq!(undefined.check(&table).err(), Some(TableError::OutOfBounds));
    let deleted: GenericRowId<TestName> = GenericRowId::new(5);
    assert_eq!(deleted.check(&table).err(), Some(TableError::Deleted));
}

#[test]
fn a_checked_row_is_checked_anew_against_another_table() {
    let table = test_table();
    let mut other = test_table();
    other.delete_row(GenericRowId::new(7));
    let mut short: RowSet<TestName> = RowSet::new();
    short.push();

    let seven = GenericRowId::<TestName>::new(7).check(&table).ok().unwrap();
    assert!(seven.check(&table).is_ok());
    assert_eq!(seven.check(&other).err(), Some(TableError::TableMismatch));
    assert_eq!(seven.check(&short).err(), Some(TableError::TableMismatch));
    let six = GenericRowId::<TestName>::new(6).check(&table).ok().unwrap();
    assert_eq!(six.check(&other).ok().map(|c| c.to_usize()), Some(6));
}

#[test]
fn rows_step_forward_and_back() {
    let row: GenericRowId<TestName> = GenericRowId::from_usize(41);
    assert_eq!(row.next().to_usize(), 42);
    assert_eq!(row.prev().to_usize(), 40);
    assert_eq!(row.to_raw(), 41);
    assert!(row.next() > row);
    assert!(row.prev() < row);
    assert!(row.next().prev() == row);
    assert_eq!(GenericRowId::<TestName>::get_name(), TableName("test_table"));
    assert_eq!(GenericRowId::<TestName>::get_domain(), DomainName("test_domain"));
    let table = test_table();
    let checked = GenericRowId::<TestName>::new(3).check(&table).ok().unwrap();
    assert_eq!(checked.next().to_usize(), 4);
    assert_eq!(checked.to_raw(), 3);
}

#[test]
fn range_length_and_containment() {
    let range = new(3, 8);
    assert_eq!(range.len(), 5);
    assert!(!range.contains(GenericRowId::new(2)));
    assert!(range.contains(GenericRowId::new(3)));
    assert!(range.contains(GenericRowId::new(7)));
    assert!(!range.contains(GenericRowId::new(8)));

    let empty = new(4, 4);
    assert_eq!(empty.len(), 0);
    assert!(!empty.contains(GenericRowId::new(4)));
    let undefined = RR::empty();
    assert_eq!(undefined.len(), 0);
    assert_eq!(undefined.start.to_usize(), usize::MAX);

    let one = RR::on(GenericRowId::new(6));
    assert_eq!(one.start.to_usize(), 6);
    assert_eq!(one.end.to_usize(), 7);
    assert_eq!(one.len(), 1);
}

#[test]
fn range_offset_and_inner_index() {
    let range = new(3, 8);
    assert_eq!(range.offset(0).map(|r| r.to_usize()), Some(3));
    assert_eq!(range.offset(4).map(|r| r.to_usize()), Some(7));
    // The end itself is still handed out; what lies past it is not.
    assert_eq!(range.offset(5).map(|r| r.to_usize()), Some(8));
    assert!(range.offset(6).is_none());
    assert!(range.offset(usize::MAX).is_none());

    assert_eq!(range.inner_index(GenericRowId::new(3)), Some(0));
    assert_eq!(range.inner_index(GenericRowId::new(7)), Some(4));
    assert_eq!(range.inner_index(GenericRowId::new(8)), None);
    assert_eq!(range.inner_index(GenericRowId::new(2)), None);
}

struct Narrow;

impl GetTableName for Narrow {
    type Idx = u8;

    fn get_domain() -> DomainName {
        DomainName("test_domain")
    }

    fn get_name() -> TableName {
        TableName("narrow")
    }

    fn get_guarantee() -> Guarantee {
        Guarantee { consistent: true, sorted: false, append_only: false }
    }

    fn new_generic_table() -> GenericTable {
        GenericTable::new(Self::get_domain(), Self::get_name()).ok().unwrap()
    }
}

#[test]
fn a_narrow_index_has_its_own_undefined_row() {
    let undefined: GenericRowId<Narrow> = GenericRowId::default();
    assert_eq!(undefined.to_usize(), 255);
    assert_eq!(undefined.to_raw(), 255u8);
    let range: RowRange<GenericRowId<Narrow>> =
        RowRange { start: GenericRowId::new(250), end: GenericRowId::new(255) };
    assert_eq!(range.offset(5).map(|r| r.to_usize()), Some(255));
    assert!(range.offset(6).is_none());
    assert_eq!(GenericRowId::<Narrow>::from_usize(7).to_raw(), 7u8);

    // The table is full when the next row would be the undefined one.
    let mut rows: RowSet<Narrow> = RowSet::new();
    for i in 0..255 {
        assert_eq!(rows.push().map(|r| r.to_usize()), Some(i));
    }
    assert!(rows.push().is_none());
    assert_eq!(rows.len(), 255);
}

#[test]
fn unchecked_iteration_walks_the_range() {
    let range = new(3, 6);
    let mut it = range.iter_slow();
    assert_eq!(it.size_hint(), (3, Some(3)));
    assert_eq!(it.next().map(|r| r.to_usize()), Some(3));
    assert_eq!(it.next().map(|r| r.to_usize()), Some(4));
    assert_eq!(it.size_hint(), (1, Some(1)));
    assert_eq!(it.next().map(|r| r.to_usize()), Some(5));
    assert!(it.next().is_none());
    assert!(it.next().is_none());

    let rows: Vec<usize> = new(3, 6).iter_slow().collect().iter().map(|r| r.to_usize()).collect();
    assert_eq!(rows, vec![3, 4, 5]);
    let skipped: Vec<usize> =
        new(3, 9).iter_slow().skip_fast(4).collect().iter().map(|r| r.to_usize()).collect();
    assert_eq!(skipped, vec![7, 8]);
    assert!(new(5, 5).iter_slow().collect().is_empty());
    assert!(new(6, 5).iter_slow().collect().is_empty());
}

#[test]
fn ranges_convert_to_and_from_std_ranges() {
    let range: RR = RR::from(GenericRowId::new(2)..GenericRowId::new(5));
    assert_eq!(range.start.to_usize(), 2);
    assert_eq!(range.end.to_usize(), 5);
    let back: std::ops::Range<GenericRowId<TestName>> = range.into();
    assert_eq!(back.start.to_usize(), 2);
    assert_eq!(back.end.to_usize(), 5);
    assert!(new(1, 3) == new(1, 3));
    assert!(new(1, 3) != new(1, 4));
}

#[test]
fn the_range_is_a_cursor_over_its_rows() {
    let mut range = new(4, 6);
    assert_eq!(range.size_hint(), (2, Some(2)));
    assert_eq!(range.next().map(|r| r.to_usize()), Some(4));
    assert_eq!(range.next().map(|r| r.to_usize()), Some(5));
    assert!(range.next().is_none());
    assert_eq!(range.start.to_usize(), 6);
    let mut it = RowIdIterator::<TestName>::new(7, 9);
    assert_eq!(it.next().map(|r| r.to_usize()), Some(7));
    assert_eq!(it.next().map(|r| r.to_usize()), Some(8));
    assert!(it.next().is_none());
}
