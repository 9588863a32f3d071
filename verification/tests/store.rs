use v11::columns::Prototyper;
use v11::domain::Universe;
use v11::index::Checkable;
use v11::rows::RowSet;
use v11::tables::DomainName;
use v11::tables::GenericTable;
use v11::tables::GetTableName;
use v11::tables::Guarantee;
use v11::tables::LockedTable;
use v11::tables::TableName;

const SWISS: u8 = 0;
const STINKY: u8 = 1;

struct CheeseName;

impl GetTableName for CheeseName {
    type Idx = usize;

    fn get_domain() -> DomainName {
        DomainName("test")
    }

    fn get_name() -> TableName {
        TableName("cheese")
    }

    fn get_guarantee() -> Guarantee {
        Guarantee { consistent: true, sorted: false, append_only: false }
    }

    fn new_generic_table() -> GenericTable {
        GenericTable::new(Self::get_domain(), Self::get_name())
            .and_then(|t| t.add_column("mass", "usize", Prototyper::Usize))
            .and_then(|t| t.add_column("holes", "u16", Prototyper::U16))
            .and_then(|t| t.add_column("kind", "CheeseKind", Prototyper::U8))
            .ok()
            .unwrap()
    }
}

/// The table `cheese`, with its columns and its rows.
struct Cheese {
    columns: GenericTable,
    rows: RowSet<CheeseName>,
}

impl Cheese {
    fn new(universe: &mut Universe) -> Cheese {
        assert!(CheeseName::get_domain().register(universe).is_ok());
        let columns = CheeseName::new_generic_table();
        assert!(columns.prototype().register(universe).is_ok());
        Cheese { columns, rows: RowSet::new() }
    }

    fn push(&mut self, mass: usize, holes: u16, kind: u8) {
        assert!(self.rows.push().is_some());
        self.columns.get_column_mut::<usize>("mass", "usize").ok().unwrap().push(mass);
        self.columns.get_column_mut::<u16>("holes", "u16").ok().unwrap().push(holes);
        self.columns.get_column_mut::<u8>("kind", "CheeseKind").ok().unwrap().push(kind);
    }
}

#[test]
fn small_table() {
    let mut universe = Universe::new();
    let mut cheese = Cheese::new(&mut universe);
    cheese.push(1000usize, 20, STINKY);
    assert_eq!(cheese.rows.len(), 1);
    assert_eq!(cheese.columns.get_column::<usize>("mass", "usize").ok().unwrap(), &vec![1000]);
    assert_eq!(universe.info(), "cheese: mass:[usize] holes:[u16] kind:[CheeseKind]");
}

#[test]
fn large_table() {
    let mut universe = Universe::new();
    let mut cheese = Cheese::new(&mut universe);
    for x in 10..1000 {
        cheese.push(x, 2000, SWISS);
    }
    assert_eq!(cheese.rows.len(), 990);
    let mass = cheese.columns.get_column::<usize>("mass", "usize").ok().unwrap();
    assert_eq!(mass.len(), 990);
    assert_eq!(mass[989], 999);
}

#[test]
fn walk_table() {
    let mut universe = Universe::new();
    let mut cheese = Cheese::new(&mut universe);
    for x in 0..10 {
        cheese.push(x, 2000, SWISS);
    }
    let mass = cheese.columns.get_column::<usize>("mass", "usize").ok().unwrap();
    let holes = cheese.columns.get_column::<u16>("holes", "u16").ok().unwrap();
    let mut walked = 0;
    let mut range = cheese.rows.range();
    while let Some(i) = range.next() {
        let i = i.check(&cheese.rows).ok().unwrap();
        println!("{:?}", (mass[i.to_usize()], holes[i.to_usize()]));
        assert_eq!(mass[i.to_usize()], walked);
        walked += 1;
    }
    assert_eq!(walked, 10);
    assert_eq!(range.size_hint(), (0, Some(0)));
}
