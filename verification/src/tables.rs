//! Table identity and the dynamically described table.

use vstd::prelude::*;
use vstd::string::StringExecFns;
use crate::columns::desync_box;
use crate::columns::desync_box_mut;
use crate::columns::ColumnView;
use crate::columns::PBox;
use crate::columns::Prototyper;
use crate::columns::Storable;
use crate::index::GenericRowId;
use crate::index::RowIndex;
use crate::intern::check_name;
use crate::intern::str_eq;
use crate::intern::valid_name;

verus! {

/// The name of a table, unique within its domain.
#[derive(Clone, Copy, Debug, PartialEq, Eq, Hash)]
pub struct TableName(pub &'static str);

/// The name of a domain: a namespace that owns tables.
#[derive(Clone, Copy, Debug, PartialEq, Eq, Hash)]
pub struct DomainName(pub &'static str);

impl View for TableName {
    type V = Seq<char>;

    open spec fn view(&self) -> Seq<char> {
        self.0@
    }
}

impl View for DomainName {
    type V = Seq<char>;

    open spec fn view(&self) -> Seq<char> {
        self.0@
    }
}

/// What a table promises about its rows.
#[derive(Clone, Copy, Debug, PartialEq, Eq)]
pub struct Guarantee {
    /// Deleted rows keep their slot, so row handles stay valid.
    pub consistent: bool,
    /// Rows are kept in ascending order.
    pub sorted: bool,
    /// Rows are only ever appended.
    pub append_only: bool,
}

/// The identity of a table: its domain, its name and the width of its row index.
/// A marker type implements this once per table; row handles carry the marker,
/// so a handle of one table is not accepted where another table's is expected.
pub trait GetTableName: Sized {
    /// The integer that indexes the rows of this table.
    type Idx: RowIndex;

    /// The domain this table belongs to.
    fn get_domain() -> DomainName;

    /// The name of this table.
    fn get_name() -> TableName;

    /// What this table promises about its rows.
    fn get_guarantee() -> Guarantee;

    /// The description of this table, with its columns, as it is registered.
    fn new_generic_table() -> GenericTable;
}

/// A table whose storage is held for reading or writing.
pub trait LockedTable: Sized {
    /// The identity of the table.
    type Row: GetTableName;

    /// How many row slots the table has, deleted ones included.
    spec fn spec_len(&self) -> nat;

    /// Whether the row at index `i` is deleted.
    spec fn spec_is_deleted(&self, i: nat) -> bool;

    /// Whether this is the table `before` with the row at index `i` deleted.
    /// A table that keeps deleted rows in place has the same length as
    /// before; a bag is shorter by one.
    spec fn deleted_from(&self, before: &Self, i: nat) -> bool;

    /// A table holds no more rows than its index can tell apart from the
    /// sentinel.
    proof fn lemma_len_fits(&self)
        ensures
            self.spec_len() <= <Self::Row as GetTableName>::Idx::spec_max(),
    ;

    fn len(&self) -> (n: usize)
        ensures
            n == self.spec_len(),
    ;

    fn is_deleted(&self, idx: GenericRowId<Self::Row>) -> (b: bool)
        ensures
            b == self.spec_is_deleted(idx@),
    ;

    fn delete_row(&mut self, idx: GenericRowId<Self::Row>)
        requires
            idx@ < old(self).spec_len(),
        ensures
            final(self).deleted_from(old(self), idx@),
            old(self).spec_len() - 1 <= final(self).spec_len() <= old(self).spec_len(),
    ;
}

/// Why the store refused an operation. Each of these is a violated invariant
/// on the caller's side; none is retried.
#[derive(Clone, Copy, Debug, PartialEq, Eq, Structural)]
pub enum TableError {
    /// A row index at or past the table's length.
    OutOfBounds,
    /// A row that has been deleted.
    Deleted,
    /// A checked row handle presented to a table it is not valid for.
    TableMismatch,
    /// A name that does not obey the grammar of names.
    InvalidName,
    /// A column name that the table already has.
    DuplicateColumn,
    /// A table registered over one of the same name and another structure.
    SchemaConflict,
    /// A domain that has not been registered.
    UnknownDomain,
    /// A table registered in a domain that is locked.
    DomainLocked,
    /// A table or column that does not exist.
    Missing,
    /// A column whose stored type is not the requested one.
    TypeMismatch,
    /// A tracked table released with events that were not flushed.
    Unflushed,
}

/// What a column is: its name, the tag of the type it stores, what it holds,
/// and the constructor of empty columns of its type.
#[verifier::ext_equal]
pub struct ColumnInfo {
    pub name: Seq<char>,
    pub stored_type_name: Seq<char>,
    pub data: ColumnView,
    pub prototyper: Prototyper,
}

/// What a table is: its domain, its name and its columns in order.
#[verifier::ext_equal]
pub struct TableInfo {
    pub domain: Seq<char>,
    pub name: Seq<char>,
    pub columns: Seq<ColumnInfo>,
}

impl TableInfo {
    /// Whether the table has a column called `name`.
    pub open spec fn has_column(self, name: Seq<char>) -> bool {
        exists|i: int| 0 <= i < self.columns.len() && (#[trigger] self.columns[i]).name == name
    }

    /// The place of the column called `name`.
    pub open spec fn column_index(self, name: Seq<char>) -> int
        recommends
            self.has_column(name),
    {
        choose|i: int| 0 <= i < self.columns.len() && (#[trigger] self.columns[i]).name == name
    }

    /// A table is well formed when its name and the names of its columns obey
    /// the grammar of names, and no two columns have the same name.
    pub open spec fn wf(self) -> bool {
        &&& valid_name(self.name)
        &&& forall|i: int|
            0 <= i < self.columns.len() ==> valid_name((#[trigger] self.columns[i]).name)
        &&& forall|i: int, j: int|
            0 <= i < j < self.columns.len() ==> (#[trigger] self.columns[i]).name != (
            #[trigger] self.columns[j]).name
    }

    /// Two tables have the same structure when they agree in domain, name,
    /// and, column by column, in the columns' names and type tags.
    pub open spec fn equivalent(self, other: TableInfo) -> bool {
        &&& self.domain == other.domain
        &&& self.name == other.name
        &&& self.columns.len() == other.columns.len()
        &&& forall|i: int|
            0 <= i < self.columns.len() ==> (#[trigger] self.columns[i]).name
                == other.columns[i].name && self.columns[i].stored_type_name
                == other.columns[i].stored_type_name
    }

    /// The table with every column emptied.
    pub open spec fn prototype(self) -> TableInfo {
        TableInfo {
            domain: self.domain,
            name: self.name,
            columns: Seq::new(
                self.columns.len(),
                |i: int|
                    ColumnInfo {
                        name: self.columns[i].name,
                        stored_type_name: self.columns[i].stored_type_name,
                        data: self.columns[i].prototyper.empty(),
                        prototyper: self.columns[i].prototyper,
                    },
            ),
        }
    }

    /// The outcome of adding a column: the name must obey the grammar of
    /// names and be new to the table; the column is appended, empty.
    pub open spec fn add_column(
        self,
        name: Seq<char>,
        type_tag: Seq<char>,
        prototyper: Prototyper,
    ) -> Result<TableInfo, TableError> {
        if !valid_name(name) {
            Err(TableError::InvalidName)
        } else if self.has_column(name) {
            Err(TableError::DuplicateColumn)
        } else {
            Ok(
                TableInfo {
                    domain: self.domain,
                    name: self.name,
                    columns: self.columns.push(
                        ColumnInfo {
                            name,
                            stored_type_name: type_tag,
                            data: prototyper.empty(),
                            prototyper,
                        },
                    ),
                },
            )
        }
    }

    /// The outcome of looking up the column called `name` as a column of
    /// elements of type `C` with the type tag `type_tag`.
    pub open spec fn get_column<C: Storable>(self, name: Seq<char>, type_tag: Seq<char>) -> Result<
        Seq<C>,
        TableError,
    > {
        if !self.has_column(name) {
            Err(TableError::Missing)
        } else {
            let column = self.columns[self.column_index(name)];
            if column.stored_type_name != type_tag {
                Err(TableError::TypeMismatch)
            } else {
                match C::column_of(column.data) {
                    Some(elements) => Ok(elements),
                    None => Err(TableError::TypeMismatch),
                }
            }
        }
    }

    /// In a well-formed table a name is the name of one column at most.
    pub proof fn lemma_column_index(self, name: Seq<char>, i: int)
        requires
            self.wf(),
            0 <= i < self.columns.len(),
            self.columns[i].name == name,
        ensures
            self.has_column(name),
            self.column_index(name) == i,
    {
        let j = self.column_index(name);
        if j < i {
            assert(self.columns[j].name != self.columns[i].name);
        } else if i < j {
            assert(self.columns[i].name != self.columns[j].name);
        }
    }
}

/// A column of a `GenericTable`: its name, the tag of the type it stores and
/// the constructor of empty columns of that type. The table keeps the
/// column's storage beside it.
#[derive(Clone, Copy, Debug)]
pub struct GenericColumn {
    name: &'static str,
    stored_type_name: &'static str,
    prototyper: Prototyper,
}

impl GenericColumn {
    /// The column with `data` as what it holds.
    pub closed spec fn holding(self, data: ColumnView) -> ColumnInfo {
        ColumnInfo {
            name: self.name@,
            stored_type_name: self.stored_type_name@,
            data,
            prototyper: self.prototyper,
        }
    }

    /// Empty storage for a column of the same name and type.
    fn prototype(&self) -> (data: PBox)
        ensures
            data@ == self.prototyper.empty(),
    {
        self.prototyper.call()
    }
}

/// A table held by `Universe`. Its information is used to populate concrete tables.
#[derive(Debug)]
pub struct GenericTable {
    domain: DomainName,
    name: TableName,
    columns: Vec<GenericColumn>,
    data: Vec<PBox>,
}

impl View for GenericTable {
    type V = TableInfo;

    closed spec fn view(&self) -> TableInfo {
        TableInfo {
            domain: self.domain@,
            name: self.name@,
            columns: Seq::new(
                self.columns@.len(),
                |i: int| self.columns@[i].holding(self.data@[i]@),
            ),
        }
    }
}

impl GenericTable {
    #[verifier::type_invariant]
    pub closed spec fn inv(self) -> bool {
        &&& self.data@.len() == self.columns@.len()
        &&& valid_name(self.name@)
        &&& forall|i: int|
            0 <= i < self.columns@.len() ==> valid_name((#[trigger] self.columns@[i]).name@)
        &&& forall|i: int, j: int|
            0 <= i < j < self.columns@.len() ==> (#[trigger] self.columns@[i]).name@ != (
            #[trigger] self.columns@[j]).name@
    }

    /// A table is well formed.
    pub proof fn lemma_inv_wf(self)
        requires
            self.inv(),
        ensures
            self@.wf(),
    {
    }

    /// A table without columns. The name must obey the grammar of names.
    pub fn new(domain: DomainName, name: TableName) -> (r: Result<GenericTable, TableError>)
        ensures
            match r {
                Ok(table) => valid_name(name@) && table@ == (TableInfo {
                    domain: domain@,
                    name: name@,
                    columns: Seq::empty(),
                }),
                Err(e) => !valid_name(name@) && e == TableError::InvalidName,
            },
    {
        if !check_name(name.0) {
            return Err(TableError::InvalidName);
        }
        let table = GenericTable { domain, name, columns: Vec::new(), data: Vec::new() };
        assert(table@.columns =~= Seq::empty());
        Ok(table)
    }

    pub fn domain(&self) -> (d: DomainName)
        ensures
            d@ == self@.domain,
    {
        self.domain
    }

    pub fn name(&self) -> (n: TableName)
        ensures
            n@ == self@.name,
            self@.wf(),
    {
        proof {
            use_type_invariant(self);
            self.lemma_inv_wf();
        }
        self.name
    }

    /// Create a copy of this table with empty columns.
    pub fn prototype(&self) -> (table: GenericTable)
        ensures
            table@ == self@.prototype(),
    {
        proof {
            use_type_invariant(self);
        }
        let mut data: Vec<PBox> = Vec::new();
        let mut i: usize = 0;
        while i < self.columns.len()
            invariant
                i <= self.columns@.len(),
                data@.len() == i,
                forall|k: int|
                    0 <= k < i ==> self.columns@[k].holding((#[trigger] data@[k])@)
                        == self@.prototype().columns[k],
            decreases self.columns@.len() - i,
        {
            data.push(self.columns[i].prototype());
            i += 1;
        }
        let table = GenericTable {
            domain: self.domain,
            name: self.name,
            columns: self.columns.clone(),
            data,
        };
        assert(table@.columns =~= self@.prototype().columns);
        table
    }

    /// The place of the column called `name`, if there is one.
    fn find_column(&self, name: &str) -> (r: Option<usize>)
        ensures
            self.inv(),
            self@.wf(),
            self@.has_column(name@) <==> r is Some,
            r matches Some(i) ==> i == self@.column_index(name@) && i < self.columns@.len(),
    {
        proof {
            use_type_invariant(self);
            self.lemma_inv_wf();
        }
        let mut i: usize = 0;
        while i < self.columns.len()
            invariant
                i <= self.columns@.len(),
                self.inv(),
                self@.wf(),
                forall|k: int| 0 <= k < i ==> (#[trigger] self@.columns[k]).name != name@,
            decreases self.columns@.len() - i,
        {
            if str_eq(self.columns[i].name, name) {
                proof {
                    self@.lemma_column_index(name@, i as int);
                }
                return Some(i);
            }
            i += 1;
        }
        None
    }

    /// Append an empty column. The name must obey the grammar of names and
    /// be new to the table.
    pub fn add_column(
        self,
        name: &'static str,
        type_tag: &'static str,
        prototyper: Prototyper,
    ) -> (r: Result<GenericTable, TableError>)
        ensures
            match r {
                Ok(table) => self@.add_column(name@, type_tag@, prototyper) == Ok::<
                    TableInfo,
                    TableError,
                >(table@),
                Err(e) => self@.add_column(name@, type_tag@, prototyper) == Err::<
                    TableInfo,
                    TableError,
                >(e),
            },
    {
        if !check_name(name) {
            return Err(TableError::InvalidName);
        }
        if self.find_column(name).is_some() {
            return Err(TableError::DuplicateColumn);
        }
        let ghost before = self@;
        proof {
            use_type_invariant(&self);
        }
        let GenericTable { domain, name: table_name, mut columns, mut data } = self;
        columns.push(GenericColumn { name, stored_type_name: type_tag, prototyper });
        data.push(prototyper.call());
        proof {
            let expected = before.add_column(name@, type_tag@, prototyper)->Ok_0;
            let built = Seq::new(columns@.len(), |i: int| columns@[i].holding(data@[i]@));
            assert(built =~= expected.columns);
            assert forall|i: int, j: int| 0 <= i < j < columns@.len() implies (
            #[trigger] columns@[i]).name@ != (#[trigger] columns@[j]).name@ by {
                assert(built[i].name == columns@[i].name@);
                assert(built[j].name == columns@[j].name@);
                if j == before.columns.len() {
                    assert(before.columns[i].name != name@);
                } else {
                    assert(before.columns[i].name != before.columns[j].name);
                }
            }
            assert forall|i: int| 0 <= i < columns@.len() implies valid_name(
                (#[trigger] columns@[i]).name@,
            ) by {
                assert(built[i].name == columns@[i].name@);
                if i < before.columns.len() {
                    assert(valid_name(before.columns[i].name));
                }
            }
        }
        let table = GenericTable { domain, name: table_name, columns, data };
        Ok(table)
    }

    /// The column called `name`, which must store elements of type `C` under
    /// the type tag `type_tag`.
    pub fn get_column<C: Storable>(&self, name: &str, type_tag: &str) -> (r: Result<
        &Vec<C>,
        TableError,
    >)
        ensures
            match r {
                Ok(column) => self@.get_column::<C>(name@, type_tag@) == Ok::<
                    Seq<C>,
                    TableError,
                >(column@),
                Err(e) => self@.get_column::<C>(name@, type_tag@) == Err::<Seq<C>, TableError>(e),
            },
    {
        let i = match self.find_column(name) {
            Some(i) => i,
            None => {
                return Err(TableError::Missing);
            },
        };
        if !str_eq(self.columns[i].stored_type_name, type_tag) {
            return Err(TableError::TypeMismatch);
        }
        match C::downcast_ref(desync_box(&self.data[i])) {
            Some(column) => Ok(column),
            None => Err(TableError::TypeMismatch),
        }
    }
}

impl TableInfo {
    /// The table with the elements of the column called `name` replaced.
    pub open spec fn with_column<C: Storable>(self, name: Seq<char>, elements: Seq<C>) -> TableInfo
        recommends
            self.has_column(name),
    {
        let i = self.column_index(name);
        TableInfo {
            domain: self.domain,
            name: self.name,
            columns: self.columns.update(
                i,
                ColumnInfo {
                    name: self.columns[i].name,
                    stored_type_name: self.columns[i].stored_type_name,
                    data: C::erased(elements),
                    prototyper: self.columns[i].prototyper,
                },
            ),
        }
    }
}

impl GenericTable {
    /// The column called `name`, for writing. It must store elements of type
    /// `C` under the type tag `type_tag`. What is written through the result
    /// is what the column holds afterwards; nothing else of the table changes.
    pub fn get_column_mut<C: Storable>(&mut self, name: &str, type_tag: &str) -> (r: Result<
        &mut Vec<C>,
        TableError,
    >)
        ensures
            match r {
                Ok(column) => old(self)@.get_column::<C>(name@, type_tag@) == Ok::<
                    Seq<C>,
                    TableError,
                >(column@) && final(self)@ =~= old(self)@.with_column::<C>(name@, final(column)@),
                Err(e) => old(self)@.get_column::<C>(name@, type_tag@) == Err::<
                    Seq<C>,
                    TableError,
                >(e) && final(self)@ =~= old(self)@,
            },
    {
        let i = match self.find_column(name) {
            Some(i) => i,
            None => {
                return Err(TableError::Missing);
            },
        };
        if !str_eq(self.columns[i].stored_type_name, type_tag) {
            return Err(TableError::TypeMismatch);
        }
        match C::downcast_mut(desync_box_mut(&mut self.data[i])) {
            Some(column) => Ok(column),
            None => Err(TableError::TypeMismatch),
        }
    }
}

/// The summary of `columns`: for each column a space, its name, a colon and
/// its type tag in square brackets.
pub open spec fn columns_summary(columns: Seq<ColumnInfo>) -> Seq<char>
    decreases columns.len(),
{
    if columns.len() == 0 {
        Seq::empty()
    } else {
        columns_summary(columns.drop_last()) + seq![' '] + columns.last().name + seq![':', '[']
            + columns.last().stored_type_name + seq![']']
    }
}

impl TableInfo {
    /// The one-line summary of the table: its name, a colon, and the summary
    /// of its columns.
    pub open spec fn summary(self) -> Seq<char> {
        self.name + seq![':'] + columns_summary(self.columns)
    }
}

impl GenericTable {
    /// Whether the two tables have the same structure: domain, name, and
    /// the names and type tags of the columns, in order.
    pub fn equivalent(&self, other: &GenericTable) -> (b: bool)
        ensures
            b == self@.equivalent(other@),
    {
        proof {
            use_type_invariant(self);
            use_type_invariant(other);
        }
        if !str_eq(self.domain.0, other.domain.0) || !str_eq(self.name.0, other.name.0)
            || self.columns.len() != other.columns.len() {
            return false;
        }
        let mut i: usize = 0;
        while i < self.columns.len()
            invariant
                self.inv(),
                other.inv(),
                self.columns@.len() == other.columns@.len(),
                i <= self.columns@.len(),
                forall|k: int|
                    0 <= k < i ==> (#[trigger] self@.columns[k]).name == other@.columns[k].name
                        && self@.columns[k].stored_type_name == other@.columns[k].stored_type_name,
            decreases self.columns@.len() - i,
        {
            let a = &self.columns[i];
            let b = &other.columns[i];
            if !str_eq(a.name, b.name) || !str_eq(a.stored_type_name, b.stored_type_name) {
                assert(!(self@.columns[i as int].name == other@.columns[i as int].name
                    && self@.columns[i as int].stored_type_name
                    == other@.columns[i as int].stored_type_name));
                return false;
            }
            i += 1;
        }
        true
    }

    /// A one-line summary of the table for logs: its name and each column's
    /// name and type tag.
    pub fn info(&self) -> (ret: String)
        ensures
            ret@ == self@.summary(),
    {
        proof {
            use_type_invariant(self);
            reveal_strlit(":");
            reveal_strlit(" ");
            reveal_strlit(":[");
            reveal_strlit("]");
        }
        let mut ret = String::from_str(self.name.0);
        ret.append(":");
        assert(ret@ =~= self@.name + seq![':']);
        let mut i: usize = 0;
        while i < self.columns.len()
            invariant
                self.inv(),
                i <= self.columns@.len(),
                ":"@ == seq![':'],
                " "@ == seq![' '],
                ":["@ == seq![':', '['],
                "]"@ == seq![']'],
                ret@ == self@.name + seq![':'] + columns_summary(self@.columns.take(i as int)),
            decreases self.columns@.len() - i,
        {
            let col = &self.columns[i];
            let ghost before = ret@;
            ret.append(" ");
            ret.append(col.name);
            ret.append(":[");
            ret.append(col.stored_type_name);
            ret.append("]");
            proof {
                let next = self@.columns.take(i + 1);
                assert(next.drop_last() =~= self@.columns.take(i as int));
                assert(next.last() == self@.columns[i as int]);
                assert(ret@ =~= self@.name + seq![':'] + columns_summary(next));
            }
            i += 1;
        }
        assert(self@.columns.take(i as int) =~= self@.columns);
        ret
    }
}

} // verus!
