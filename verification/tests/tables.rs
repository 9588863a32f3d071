use v11::columns::desync_box;
use v11::columns::desync_box_mut;
use v11::columns::ColumnData;
use v11::columns::PBox;
use v11::columns::Prototyper;
use v11::columns::Storable;
use v11::domain::DomainId;
use v11::domain::Universe;
use v11::index::GenericRowId;
use v11::tables::DomainName;
use v11::tables::GenericTable;
use v11::tables::GetTableName;
use v11::tables::Guarantee;
use v11::tables::TableError;
use v11::tables::TableName;

const DAIRY: DomainName = DomainName("dairy");

fn cheese() -> GenericTable {
    GenericTable::new(DAIRY, TableName("cheese"))
        .and_then(|t| t.add_column("mass", "usize", Prototyper::Usize))
        .and_then(|t| t.add_column("holes", "u16", Prototyper::U16))
        .and_then(|t| t.add_column("kind", "CheeseKind", Prototyper::U8))
        .ok()
        .unwrap()
}

fn easy() -> GenericTable {
    GenericTable::new(DAIRY, TableName("easy"))
        .and_then(|t| t.add_column("x", "i32", Prototyper::I32))
        .ok()
        .unwrap()
}

fn universe() -> Universe {
    let mut universe = Universe::new();
    assert_eq!(DAIRY.register(&mut universe), Ok(DomainId(0)));
    universe
}

#[test]
fn a_table_name_must_obey_the_grammar() {
    assert_eq!(GenericTable::new(DAIRY, TableName("123")).err(), Some(TableError::InvalidName));
    assert_eq!(GenericTable::new(DAIRY, TableName("")).err(), Some(TableError::InvalidName));
    assert_eq!(GenericTable::new(DAIRY, TableName("a b")).err(), Some(TableError::InvalidName));
    let table = GenericTable::new(DAIRY, TableName("cheese")).ok().unwrap();
    assert_eq!(table.name().0, "cheese");
    assert_eq!(table.domain().0, "dairy");
    assert_eq!(table.info(), "cheese:");
}

#[test]
fn a_column_name_must_be_new_and_obey_the_grammar() {
    let table = cheese();
    assert_eq!(
        table.add_column("mass", "u8", Prototyper::U8).err(),
        Some(TableError::DuplicateColumn)
    );
    assert_eq!(
        cheese().add_column("kind", "CheeseKind", Prototyper::U8).err(),
        Some(TableError::DuplicateColumn)
    );
    assert_eq!(
        cheese().add_column("9lives", "u8", Prototyper::U8).err(),
        Some(TableError::InvalidName)
    );
    assert_eq!(cheese().add_column("", "u8", Prototyper::U8).err(), Some(TableError::InvalidName));
    let wider = cheese().add_column("rind", "bool", Prototyper::Bool).ok().unwrap();
    assert_eq!(wider.info(), "cheese: mass:[usize] holes:[u16] kind:[CheeseKind] rind:[bool]");
    assert!(wider.get_column::<bool>("rind", "bool").ok().unwrap().is_empty());
}

#[test]
fn a_column_is_found_by_name_tag_and_type() {
    let mut table = cheese();
    table.get_column_mut::<usize>("mass", "usize").ok().unwrap().push(1000);
    table.get_column_mut::<usize>("mass", "usize").ok().unwrap().push(7);
    table.get_column_mut::<u16>("holes", "u16").ok().unwrap().push(20);

    assert_eq!(table.get_column::<usize>("mass", "usize").ok().unwrap(), &vec![1000, 7]);
    assert_eq!(table.get_column::<u16>("holes", "u16").ok().unwrap(), &vec![20]);
    assert!(table.get_column::<u8>("kind", "CheeseKind").ok().unwrap().is_empty());

    assert_eq!(table.get_column::<usize>("rind", "usize").err(), Some(TableError::Missing));
    assert_eq!(table.get_column::<usize>("mass", "u16").err(), Some(TableError::TypeMismatch));
    assert_eq!(table.get_column::<u16>("mass", "usize").err(), Some(TableError::TypeMismatch));
    assert_eq!(table.get_column::<u16>("kind", "CheeseKind").err(), Some(TableError::TypeMismatch));
    assert_eq!(table.get_column_mut::<usize>("rind", "usize").err(), Some(TableError::Missing));
    assert_eq!(
        table.get_column_mut::<usize>("mass", "Mass").err(),
        Some(TableError::TypeMismatch)
    );
    assert_eq!(table.get_column_mut::<i64>("mass", "usize").err(), Some(TableError::TypeMismatch));
    // A refused lookup for writing changes nothing.
    assert_eq!(table.get_column::<usize>("mass", "usize").ok().unwrap(), &vec![1000, 7]);
}

#[test]
fn the_prototype_is_the_same_structure_emptied() {
    let mut table = cheese();
    table.get_column_mut::<usize>("mass", "usize").ok().unwrap().push(1000);
    table.get_column_mut::<u8>("kind", "CheeseKind").ok().unwrap().push(2);
    let prototype = table.prototype();
    assert_eq!(prototype.info(), table.info());
    assert_eq!(prototype.info(), "cheese: mass:[usize] holes:[u16] kind:[CheeseKind]");
    assert!(prototype.equivalent(&table));
    assert!(prototype.get_column::<usize>("mass", "usize").ok().unwrap().is_empty());
    assert!(prototype.get_column::<u16>("holes", "u16").ok().unwrap().is_empty());
    assert!(prototype.get_column::<u8>("kind", "CheeseKind").ok().unwrap().is_empty());
    assert_eq!(table.get_column::<usize>("mass", "usize").ok().unwrap(), &vec![1000]);
}

#[test]
fn tables_are_equivalent_by_structure() {
    assert!(cheese().equivalent(&cheese()));
    assert!(!cheese().equivalent(&easy()));
    let other_tag = GenericTable::new(DAIRY, TableName("cheese"))
        .and_then(|t| t.add_column("mass", "usize", Prototyper::Usize))
        .and_then(|t| t.add_column("holes", "u32", Prototyper::U32))
        .and_then(|t| t.add_column("kind", "CheeseKind", Prototyper::U8))
        .ok()
        .unwrap();
    assert!(!cheese().equivalent(&other_tag));
    let other_order = GenericTable::new(DAIRY, TableName("cheese"))
        .and_then(|t| t.add_column("holes", "u16", Prototyper::U16))
        .and_then(|t| t.add_column("mass", "usize", Prototyper::Usize))
        .and_then(|t| t.add_column("kind", "CheeseKind", Prototyper::U8))
        .ok()
        .unwrap();
    assert!(!cheese().equivalent(&other_order));
    let other_domain = GenericTable::new(DomainName("cellar"), TableName("cheese"))
        .and_then(|t| t.add_column("mass", "usize", Prototyper::Usize))
        .and_then(|t| t.add_column("holes", "u16", Prototyper::U16))
        .and_then(|t| t.add_column("kind", "CheeseKind", Prototyper::U8))
        .ok()
        .unwrap();
    assert!(!cheese().equivalent(&other_domain));
    // The type tag counts, not the storage behind it.
    let other_storage = GenericTable::new(DAIRY, TableName("easy"))
        .and_then(|t| t.add_column("x", "i32", Prototyper::I64))
        .ok()
        .unwrap();
    assert!(easy().equivalent(&other_storage));
}

#[test]
fn registering_twice_is_idempotent() {
    let mut universe = universe();
    assert_eq!(cheese().register(&mut universe), Ok(()));
    assert_eq!(universe.info(), "cheese: mass:[usize] holes:[u16] kind:[CheeseKind]");
    assert_eq!(cheese().register(&mut universe), Ok(()));
    assert_eq!(universe.info(), "cheese: mass:[usize] holes:[u16] kind:[CheeseKind]");
    assert_eq!(universe.table_names().len(), 1);
}

#[test]
fn registering_another_structure_fails() {
    let mut universe = universe();
    assert_eq!(cheese().register(&mut universe), Ok(()));
    let fewer = GenericTable::new(DAIRY, TableName("cheese"))
        .and_then(|t| t.add_column("mass", "usize", Prototyper::Usize))
        .ok()
        .unwrap();
    assert_eq!(fewer.register(&mut universe), Err(TableError::SchemaConflict));
    let other = cheese().add_column("rind", "bool", Prototyper::Bool).ok().unwrap();
    assert_eq!(other.register(&mut universe), Err(TableError::SchemaConflict));
    assert_eq!(universe.info(), "cheese: mass:[usize] holes:[u16] kind:[CheeseKind]");
}

#[test]
fn a_table_needs_its_domain_unlocked() {
    let mut universe = Universe::new();
    assert_eq!(cheese().register(&mut universe), Err(TableError::UnknownDomain));
    assert_eq!(universe.lock_domain(DAIRY), Err(TableError::UnknownDomain));
    assert_eq!(universe.is_locked(DAIRY), None);

    assert_eq!(DAIRY.register(&mut universe), Ok(DomainId(0)));
    assert_eq!(DomainName("cellar").register(&mut universe), Ok(DomainId(1)));
    assert_eq!(DAIRY.register(&mut universe), Ok(DomainId(0)));
    assert_eq!(DomainName("no good").register(&mut universe), Err(TableError::InvalidName));
    assert_eq!(DAIRY.get_id(&universe), Some(DomainId(0)));
    assert_eq!(DomainName("cellar").get_id(&universe), Some(DomainId(1)));
    assert_eq!(DomainName("attic").get_id(&universe), None);

    assert_eq!(cheese().register(&mut universe), Ok(()));
    assert_eq!(universe.is_locked(DAIRY), Some(false));
    assert_eq!(universe.lock_domain(DAIRY), Ok(()));
    assert_eq!(universe.is_locked(DAIRY), Some(true));
    assert_eq!(universe.is_locked(DomainName("cellar")), Some(false));
    // A locked domain takes no table, not even one that it has.
    assert_eq!(easy().register(&mut universe), Err(TableError::DomainLocked));
    assert_eq!(cheese().register(&mut universe), Err(TableError::DomainLocked));
    assert_eq!(universe.info(), "cheese: mass:[usize] holes:[u16] kind:[CheeseKind]");
}

struct Easy;

impl GetTableName for Easy {
    type Idx = u32;

    fn get_domain() -> DomainName {
        DAIRY
    }

    fn get_name() -> TableName {
        TableName("easy")
    }

    fn get_guarantee() -> Guarantee {
        Guarantee { consistent: false, sorted: false, append_only: true }
    }

    fn new_generic_table() -> GenericTable {
        easy()
    }
}

#[test]
fn registered_tables_are_found_again() {
    let mut universe = universe();
    assert_eq!(
        GenericRowId::<Easy>::get_generic_table(&universe).err(),
        Some(TableError::Missing)
    );
    assert_eq!(cheese().register(&mut universe), Ok(()));
    assert_eq!(Easy::new_generic_table().register(&mut universe), Ok(()));
    assert_eq!(DomainName("cellar").register(&mut universe), Ok(DomainId(1)));
    let wine = GenericTable::new(DomainName("cellar"), TableName("wine")).ok().unwrap();
    assert_eq!(wine.register(&mut universe), Ok(()));

    let found = universe.get_generic_table(DomainId(0), TableName("easy")).ok().unwrap();
    assert_eq!(found.info(), "easy: x:[i32]");
    let found = universe.get_generic_table(DomainId(1), TableName("wine")).ok().unwrap();
    assert_eq!(found.info(), "wine:");
    assert_eq!(
        universe.get_generic_table(DomainId(1), TableName("easy")).err(),
        Some(TableError::Missing)
    );
    assert_eq!(
        universe.get_generic_table(DomainId(2), TableName("easy")).err(),
        Some(TableError::UnknownDomain)
    );
    let found = GenericRowId::<Easy>::get_generic_table(&universe).ok().unwrap();
    assert_eq!(found.info(), "easy: x:[i32]");

    let names: Vec<&str> = universe.table_names().iter().map(|n| n.0).collect();
    assert_eq!(names, vec!["cheese", "easy", "wine"]);
    assert_eq!(
        universe.info(),
        "cheese: mass:[usize] holes:[u16] kind:[CheeseKind] easy: x:[i32] wine:"
    );
    assert_eq!(Universe::new().info(), "");
    assert!(Universe::new().table_names().is_empty());
    assert_eq!(
        GenericRowId::<Easy>::get_generic_table(&Universe::new()).err(),
        Some(TableError::UnknownDomain)
    );
}

#[test]
fn erased_columns_give_their_type_back() {
    let mut boxed: PBox = u16::prototyper().call();
    assert_eq!(u16::prototyper(), Prototyper::U16);
    assert_eq!(desync_box(&boxed).len(), 0);
    assert!(u16::downcast_ref(desync_box(&boxed)).is_some());
    assert!(u32::downcast_ref(desync_box(&boxed)).is_none());
    assert!(bool::downcast_mut(desync_box_mut(&mut boxed)).is_none());
    u16::downcast_mut(desync_box_mut(&mut boxed)).unwrap().push(9);
    u16::downcast_mut(desync_box_mut(&mut boxed)).unwrap().push(8);
    assert_eq!(desync_box(&boxed).len(), 2);
    assert_eq!(u16::downcast_ref(desync_box(&boxed)), Some(&vec![9, 8]));

    let erased: ColumnData = i64::erase(vec![-1, 5]);
    assert_eq!(i64::downcast_ref(&erased), Some(&vec![-1, 5]));
    assert!(i32::downcast_ref(&erased).is_none());
    assert!(u64::downcast_ref(&erased).is_none());
    assert_eq!(erased.len(), 2);
    assert_eq!(bool::downcast_ref(&Prototyper::Bool.call()), Some(&Vec::<bool>::new()));
    assert_eq!(usize::downcast_ref(&Prototyper::Usize.call()), Some(&Vec::<usize>::new()));
    assert_eq!(u8::downcast_ref(&Prototyper::U8.call()), Some(&Vec::<u8>::new()));
    assert_eq!(u32::downcast_ref(&Prototyper::U32.call()), Some(&Vec::<u32>::new()));
    assert_eq!(u64::downcast_ref(&Prototyper::U64.call()), Some(&Vec::<u64>::new()));
    assert_eq!(i32::downcast_ref(&Prototyper::I32.call()), Some(&Vec::<i32>::new()));
    assert_eq!(i64::downcast_ref(&Prototyper::I64.call()), Some(&Vec::<i64>::new()));
}
