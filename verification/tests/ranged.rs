use v11::columns::Prototyper;
use v11::domain::Universe;
use v11::foreign::select;
use v11::foreign::Reference;
use v11::index::GenericRowId;
use v11::index::RowRange;
use v11::rows::RowSet;
use v11::sorted::Keyed;
use v11::tables::DomainName;
use v11::tables::GenericTable;
use v11::tables::GetTableName;
use v11::tables::Guarantee;
use v11::tables::LockedTable;
use v11::tables::TableName;
use v11::tracking::Event;
use v11::tracking::EventLog;
use v11::tracking::Recorder;
use v11::tracking::Tracker;

const TEST: DomainName = DomainName("TEST");

struct Elements;

impl GetTableName for Elements {
    type Idx = usize;

    fn get_domain() -> DomainName {
        TEST
    }

    fn get_name() -> TableName {
        TableName("elements")
    }

    fn get_guarantee() -> Guarantee {
        Guarantee { consistent: true, sorted: false, append_only: false }
    }

    fn new_generic_table() -> GenericTable {
        GenericTable::new(Self::get_domain(), Self::get_name()).ok().unwrap()
    }
}

struct Arrays;

impl GetTableName for Arrays {
    type Idx = u32;

    fn get_domain() -> DomainName {
        TEST
    }

    fn get_name() -> TableName {
        TableName("arrays")
    }

    fn get_guarantee() -> Guarantee {
        Guarantee { consistent: true, sorted: false, append_only: false }
    }

    fn new_generic_table() -> GenericTable {
        GenericTable::new(Self::get_domain(), Self::get_name()).ok().unwrap()
    }
}

type Element = GenericRowId<Elements>;
type Array = GenericRowId<Arrays>;

fn elements() -> GenericTable {
    GenericTable::new(TEST, TableName("elements"))
        .and_then(|t| t.add_column("bits", "bool", Prototyper::Bool))
        .and_then(|t| t.add_column("bytes", "u8", Prototyper::U8))
        .ok()
        .unwrap()
}

fn arrays() -> GenericTable {
    GenericTable::new(TEST, TableName("arrays"))
        .and_then(|t| t.add_column("range_start", "elements::RowId", Prototyper::Usize))
        .and_then(|t| t.add_column("range_end", "elements::RowId", Prototyper::Usize))
        .ok()
        .unwrap()
}

fn verse() -> Universe {
    let mut universe = Universe::new();
    assert!(TEST.register(&mut universe).is_ok());
    assert!(elements().register(&mut universe).is_ok());
    assert!(arrays().register(&mut universe).is_ok());
    universe
}

fn bounds(ranges: &[RowRange<Element>]) -> Vec<(usize, usize)> {
    ranges.iter().map(|r| (r.start.to_usize(), r.end.to_usize())).collect()
}

struct Tables {
    universe: Universe,
    e_columns: GenericTable,
    e_rows: RowSet<Elements>,
    e_log: EventLog<Elements>,
    a_columns: GenericTable,
    a_rows: RowSet<Arrays>,
    a_log: EventLog<Arrays>,
    /// The index of the column `range_start`: in the order of the elements
    /// referred to.
    index: Vec<Reference<Elements, Arrays>>,
}

impl Tables {
    fn push_element(&mut self, bits: bool, bytes: u8) -> Element {
        let row = self.e_rows.push().unwrap();
        self.e_columns.get_column_mut::<bool>("bits", "bool").ok().unwrap().push(bits);
        self.e_columns.get_column_mut::<u8>("bytes", "u8").ok().unwrap().push(bytes);
        self.e_log.record(RowRange::on(row));
        row
    }

    fn push_array(&mut self, range: RowRange<Element>) -> Array {
        let row = self.a_rows.push().unwrap();
        let start = range.start.to_usize();
        let end = range.end.to_usize();
        self.a_columns
            .get_column_mut::<usize>("range_start", "elements::RowId")
            .ok()
            .unwrap()
            .push(start);
        self.a_columns
            .get_column_mut::<usize>("range_end", "elements::RowId")
            .ok()
            .unwrap()
            .push(end);
        self.a_log.record(RowRange::on(row));
        self.index.push(Reference { foreign: range.start, row });
        row
    }
}

/// Three arrays of one, two and three elements.
fn filled() -> Tables {
    let mut t = Tables {
        universe: verse(),
        e_columns: elements(),
        e_rows: RowSet::new(),
        e_log: EventLog::new(),
        a_columns: arrays(),
        a_rows: RowSet::new(),
        a_log: EventLog::new(),
        index: Vec::new(),
    };
    for n in 0..3 {
        let start = t.push_element(true, 42);
        let mut end = start;
        for _ in 0..n {
            end = t.push_element(false, 24);
        }
        t.push_array(RowRange { start, end: end.next() });
    }
    t
}

#[test]
fn ranged() {
    let mut t = filled();
    let starts = t.a_columns.get_column::<usize>("range_start", "elements::RowId").ok().unwrap();
    let ends = t.a_columns.get_column::<usize>("range_end", "elements::RowId").ok().unwrap();
    let bits = t.e_columns.get_column::<bool>("bits", "bool").ok().unwrap();
    let mut walked = Vec::new();
    for row in t.a_rows.iter().collect() {
        let range = RowRange {
            start: Element::new(starts[row.to_usize()]),
            end: Element::new(ends[row.to_usize()]),
        };
        println!("{}: {:?}", row.debug_string(), (range.start.to_usize(), range.end.to_usize()));
        let erows = t.e_rows.iter_range(range).ok().unwrap().collect();
        for erow in erows.iter() {
            println!("\t{}", bits[erow.to_usize()]);
        }
        // The range can be walked a second time.
        let again = t.e_rows.iter_range(range).ok().unwrap().collect();
        assert_eq!(erows.len(), again.len());
        walked.push(erows.iter().map(|r| bits[r.to_usize()]).collect::<Vec<bool>>());
    }
    assert_eq!(walked, vec![vec![true], vec![true, false], vec![true, false, false]]);

    let mut a_trackers: Vec<Recorder<Arrays>> = Vec::new();
    let mut e_trackers = vec![Recorder::<Elements>::new(false)];
    t.a_log.flush(&t.universe, Event::Create, &mut a_trackers);
    t.e_log.flush(&t.universe, Event::Create, &mut e_trackers);
    assert_eq!(t.a_log.release(), Ok(()));
    assert_eq!(t.e_log.release(), Ok(()));
    let batches = e_trackers[0].batches();
    assert_eq!(batches.len(), 1);
    assert_eq!(batches[0].0, Event::Create);
    assert_eq!(bounds(&batches[0].1), vec![(0, 1), (1, 2), (2, 3), (3, 4), (4, 5), (5, 6)]);
}

#[test]
fn deleted_elements_reach_the_arrays_that_refer_to_them() {
    let mut t = filled();
    let mut trackers = vec![Recorder::<Elements>::new(true)];
    t.e_log.flush(&t.universe, Event::Create, &mut trackers);

    // Delete the elements of the last array, and then the first element.
    for row in [3, 4, 5, 0] {
        t.e_rows.delete_row(Element::new(row));
    }
    t.e_log.record(RowRange { start: Element::new(3), end: Element::new(6) });
    t.e_log.record(RowRange::on(Element::new(0)));
    t.e_log.flush(&t.universe, Event::Delete, &mut trackers);
    assert_eq!(t.e_log.release(), Ok(()));

    // One batch, with just the rows that were touched. This tracker asked
    // for the order of the rows.
    let batches = trackers[0].batches();
    assert_eq!(batches.len(), 2);
    assert_eq!(batches[1].0, Event::Delete);
    assert_eq!(bounds(&batches[1].1), vec![(0, 1), (3, 6)]);

    // The arrays that start at a deleted element.
    let hit: Vec<usize> =
        select(&t.index, &batches[1].1).iter().map(|r| r.to_usize()).collect();
    assert_eq!(hit, vec![0, 2]);
    let live: Vec<usize> = t.e_rows.iter().collect().iter().map(|r| r.to_usize()).collect();
    assert_eq!(live, vec![1, 2]);
}

#[test]
fn references_are_selected_by_a_merge() {
    let reference = |foreign: usize, row: u32| Reference::<Elements, Arrays> {
        foreign: Element::new(foreign),
        row: Array::new(row),
    };
    let range = |start: usize, end: usize| RowRange {
        start: Element::new(start),
        end: Element::new(end),
    };
    // Several rows may refer to one element.
    let index = vec![
        reference(0, 7),
        reference(2, 1),
        reference(2, 5),
        reference(3, 0),
        reference(6, 2),
        reference(9, 4),
    ];
    let rows = |selected: Vec<RowRange<Element>>| -> Vec<usize> {
        select(&index, &selected).iter().map(|r| r.to_usize()).collect()
    };
    assert_eq!(rows(vec![range(2, 3)]), vec![1, 5]);
    assert_eq!(rows(vec![range(0, 10)]), vec![7, 1, 5, 0, 2, 4]);
    assert_eq!(rows(vec![range(1, 2), range(4, 6), range(7, 9)]), Vec::<usize>::new());
    assert_eq!(rows(vec![range(0, 1), range(3, 7), range(9, 10)]), vec![7, 0, 2, 4]);
    assert_eq!(rows(vec![range(2, 4), range(3, 7)]), vec![1, 5, 0, 2]);
    assert_eq!(rows(vec![range(5, 5), range(6, 6), range(6, 7)]), vec![2]);
    assert_eq!(rows(Vec::new()), Vec::<usize>::new());
    assert!(select::<Elements, Arrays>(&[], &vec![range(0, 3)]).is_empty());
    assert!(reference(2, 9).le_key(&reference(2, 0)));
    assert!(!reference(3, 0).le_key(&reference(2, 9)));
}
