use std::cell::Cell;
use v11::action::visit;
use v11::action::Action;
use v11::bag::Bag;
use v11::bag::BagIter;
use v11::index::GenericRowId;
use v11::rows::RowSet;
use v11::tables::DomainName;
use v11::tables::GenericTable;
use v11::tables::GetTableName;
use v11::tables::Guarantee;
use v11::tables::LockedTable;
use v11::tables::TableName;

#[test]
fn visit_add() {
    let mut easy: Vec<i32> = vec![1];
    let mut expected = 1;
    for d in 2..10 {
        let first = Cell::new(true);
        let before = easy.len();
        visit(&mut easy, |x: &i32| {
            if d == 2 && !first.get() {
                panic!("visiting stuff I just made! {:?}", x);
            }
            first.set(false);
            Action::Add(vec![*x * d])
        });
        // Every row that was there before the pass has got one new row.
        expected += before;
        assert_eq!(easy.len(), expected);
    }
    assert_eq!(easy.len(), 256);
    assert_eq!(&easy[..4], &[1, 9, 8, 72]);
}

#[test]
fn visit_remove() {
    let mut easy: Vec<i32> = vec![1];
    for d in 2..10 {
        visit(&mut easy, |x: &i32| Action::Add(vec![*x * d]));
    }
    let tens = easy.iter().filter(|x| **x % 10 == 0).count();
    assert!(tens > 0);
    visit(&mut easy, |x: &i32| if *x % 10 == 0 { Action::Remove } else { Action::Continue });
    assert_eq!(easy.len(), 256 - tens);
    assert!(easy.iter().all(|x| *x % 10 != 0));
}

#[test]
fn visit_break_immediate() {
    let mut easy: Vec<i32> = vec![1];
    visit(&mut easy, |_: &i32| Action::Break);
    assert_eq!(easy, vec![1]);
}

fn visit_remove_and<A: Fn() -> Action<i32>>(act: A) -> Vec<i32> {
    let mut easy: Vec<i32> = (0..10).collect();
    let n = Cell::new(0);
    visit(&mut easy, |_: &i32| {
        n.set(n.get() + 1);
        if n.get() > 5 {
            act()
        } else {
            Action::Remove
        }
    });
    easy
}

#[test]
fn visit_remove_break() {
    assert_eq!(visit_remove_and(|| Action::Break), vec![5, 6, 7, 8, 9]);
}

#[test]
fn visit_remove_continue() {
    assert_eq!(visit_remove_and(|| Action::Continue), vec![5, 6, 7, 8, 9]);
}

#[test]
fn remove_one() {
    let mut easy: Vec<i32> = vec![0, 1];
    let first = Cell::new(true);
    assert!(easy.len() == 2);
    visit(&mut easy, |_: &i32| {
        if first.get() {
            first.set(false);
            Action::Remove
        } else {
            Action::Break
        }
    });
    assert!(easy.len() == 1);
    assert_eq!(easy, vec![1]);
}

#[test]
fn added_rows_follow_their_row() {
    let mut rows: Vec<u8> = vec![1, 2, 3, 4];
    let seen = Cell::new(0);
    visit(&mut rows, |x: &u8| {
        seen.set(seen.get() + 1);
        match *x {
            1 => Action::Add(vec![10, 11]),
            2 => Action::Remove,
            3 => Action::Add(Vec::new()),
            _ => Action::Continue,
        }
    });
    assert_eq!(rows, vec![1, 10, 11, 3, 4]);
    assert_eq!(seen.get(), 4);

    let mut rows: Vec<u8> = vec![1, 2, 3, 4];
    let seen = Cell::new(0);
    visit(&mut rows, |x: &u8| {
        seen.set(seen.get() + 1);
        if *x == 2 {
            Action::Break
        } else {
            Action::Add(vec![*x + 100])
        }
    });
    assert_eq!(rows, vec![1, 101, 2, 3, 4]);
    assert_eq!(seen.get(), 2);

    let mut none: Vec<u8> = Vec::new();
    visit(&mut none, |_: &u8| Action::Remove);
    assert!(none.is_empty());
}

struct BagName;

impl GetTableName for BagName {
    type Idx = u16;

    fn get_domain() -> DomainName {
        DomainName("TEST")
    }

    fn get_name() -> TableName {
        TableName("bag")
    }

    fn get_guarantee() -> Guarantee {
        Guarantee { consistent: true, sorted: false, append_only: false }
    }

    fn new_generic_table() -> GenericTable {
        GenericTable::new(Self::get_domain(), Self::get_name()).ok().unwrap()
    }
}

#[test]
fn a_marked_row_is_deleted_when_the_walk_goes_on() {
    let mut rows: RowSet<BagName> = RowSet::new();
    for _ in 0..3 {
        rows.push();
    }
    let mut seen = Vec::new();
    {
        let mut walk = BagIter::new(&mut rows);
        loop {
            let (table, row) = match walk.next() {
                None => break,
                Some(next) => next,
            };
            let at = row.get().to_usize();
            seen.push((at, table.is_deleted(row.get())));
            if at == 1 && !table.is_deleted(row.get()) {
                row.delete();
            }
        }
        walk.finish();
    }
    // The row at 1 was handed out, marked, deleted, and handed out again as
    // the deleted row it now is.
    assert_eq!(seen, vec![(0, false), (1, false), (1, true), (2, false)]);
    assert!(rows.is_deleted(GenericRowId::new(1)));
    assert!(!rows.is_deleted(GenericRowId::new(0)));
    assert!(!rows.is_deleted(GenericRowId::new(2)));
}

#[test]
fn the_end_of_the_walk_deletes_the_last_marked_row() {
    let mut rows: RowSet<BagName> = RowSet::new();
    for _ in 0..2 {
        rows.push();
    }
    {
        let mut walk = BagIter::new(&mut rows);
        walk.next().unwrap();
        let (_, row) = walk.next().unwrap();
        assert_eq!(row.get().to_usize(), 1);
        row.delete();
        assert!(walk.next().is_none());
        assert!(walk.delete);
        assert_eq!(walk.last, Some(1));
        walk.finish();
    }
    assert!(rows.is_deleted(GenericRowId::new(1)));
    assert!(!rows.is_deleted(GenericRowId::new(0)));

    let mut none: RowSet<BagName> = RowSet::new();
    let mut walk = BagIter::new(&mut none);
    assert!(walk.next().is_none());
    walk.finish();
}

#[test]
fn rows_of_a_bag_are_deleted_while_it_is_walked() {
    let mut bag: Bag<BagName, u32> = Bag::new();
    for x in 1..=6 {
        assert_eq!(bag.push(x).ok().map(|r| r.to_usize()), Some(x as usize - 1));
    }
    let mut seen = Vec::new();
    {
        let mut walk = BagIter::new(&mut bag);
        loop {
            let (table, row) = match walk.next() {
                None => break,
                Some(next) => next,
            };
            let x = *table.get(row.get()).unwrap();
            seen.push((row.get().to_usize(), x));
            if x % 2 == 0 {
                row.delete();
            }
        }
        walk.finish();
    }
    // The last row takes the place of a deleted one, and is handed out there.
    assert_eq!(seen, vec![(0, 1), (1, 2), (1, 6), (1, 5), (2, 3), (3, 4)]);
    assert_eq!(bag.len(), 3);
    let left: Vec<u32> = (0..3).map(|i| *bag.get(GenericRowId::new(i)).unwrap()).collect();
    assert_eq!(left, vec![1, 5, 3]);
    assert!(bag.get(GenericRowId::new(3)).is_none());
    assert!(!bag.is_deleted(GenericRowId::new(1)));
}

#[test]
fn a_bag_can_be_emptied_by_its_walk() {
    let mut bag: Bag<BagName, u8> = Bag::new();
    for x in 0..5 {
        assert!(bag.push(x).is_ok());
    }
    let mut handed_out = 0;
    {
        let mut walk = BagIter::new(&mut bag);
        while let Some((_, row)) = walk.next() {
            handed_out += 1;
            row.delete();
        }
        walk.finish();
    }
    assert_eq!(handed_out, 5);
    assert_eq!(bag.len(), 0);

    let mut small: Bag<Tiny, u8> = Bag::new();
    for x in 0..255 {
        assert!(small.push(x).is_ok());
    }
    assert_eq!(small.push(7).err(), Some(7));
    small.delete_row(GenericRowId::new(0));
    assert_eq!(small.get(GenericRowId::new(0)), Some(&254));
    assert_eq!(small.push(7).ok().map(|r| r.to_usize()), Some(254));
}

struct Tiny;

impl GetTableName for Tiny {
    type Idx = u8;

    fn get_domain() -> DomainName {
        DomainName("TEST")
    }

    fn get_name() -> TableName {
        TableName("tiny")
    }

    fn get_guarantee() -> Guarantee {
        Guarantee { consistent: false, sorted: false, append_only: false }
    }

    fn new_generic_table() -> GenericTable {
        GenericTable::new(Self::get_domain(), Self::get_name()).ok().unwrap()
    }
}
