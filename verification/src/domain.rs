//! Domains, and the universe that holds their tables.
//!
//! A domain is a namespace that owns tables. The universe is the registry of
//! domains and of the tables registered in them; it is handed to every call
//! that needs it. A domain can be locked, after which it takes no more
//! tables: the schema is then stable.

use vstd::prelude::*;
use vstd::string::StringExecFns;
use crate::index::GenericRowId;
use crate::intern::check_name;
use crate::intern::str_eq;
use crate::intern::valid_name;
use crate::tables::DomainName;
use crate::tables::GenericTable;
use crate::tables::GetTableName;
use crate::tables::TableError;
use crate::tables::TableInfo;
use crate::tables::TableName;

verus! {

/// The place of a domain in the universe.
#[derive(Clone, Copy, Debug, PartialEq, Eq, Structural)]
pub struct DomainId(pub usize);

/// What a domain is: its name, whether it is locked, and its tables in the
/// order of their registration.
#[verifier::ext_equal]
pub struct DomainState {
    pub name: Seq<char>,
    pub locked: bool,
    pub tables: Seq<TableInfo>,
}

/// What a universe is: its domains in the order of their registration.
#[verifier::ext_equal]
pub struct UniverseState {
    pub domains: Seq<DomainState>,
}

impl DomainState {
    /// Whether the domain has a table called `name`.
    pub open spec fn has_table(self, name: Seq<char>) -> bool {
        exists|i: int| 0 <= i < self.tables.len() && (#[trigger] self.tables[i]).name == name
    }

    /// The place of the table called `name`.
    pub open spec fn table_index(self, name: Seq<char>) -> int
        recommends
            self.has_table(name),
    {
        choose|i: int| 0 <= i < self.tables.len() && (#[trigger] self.tables[i]).name == name
    }

    /// A domain is well formed when its tables are, belong to it, and no two
    /// of them have the same name.
    pub open spec fn wf(self) -> bool {
        &&& valid_name(self.name)
        &&& forall|i: int|
            0 <= i < self.tables.len() ==> (#[trigger] self.tables[i]).wf() && self.tables[i].domain
                == self.name
        &&& forall|i: int, j: int|
            0 <= i < j < self.tables.len() ==> (#[trigger] self.tables[i]).name != (
            #[trigger] self.tables[j]).name
    }

    /// In a well-formed domain a name is the name of one table at most.
    pub proof fn lemma_table_index(self, name: Seq<char>, i: int)
        requires
            self.wf(),
            0 <= i < self.tables.len(),
            self.tables[i].name == name,
        ensures
            self.has_table(name),
            self.table_index(name) == i,
    {
        let j = self.table_index(name);
        if j < i {
            assert(self.tables[j].name != self.tables[i].name);
        } else if i < j {
            assert(self.tables[i].name != self.tables[j].name);
        }
    }
}

impl UniverseState {
    /// Whether the universe has a domain called `name`.
    pub open spec fn has_domain(self, name: Seq<char>) -> bool {
        exists|i: int| 0 <= i < self.domains.len() && (#[trigger] self.domains[i]).name == name
    }

    /// The place of the domain called `name`.
    pub open spec fn domain_index(self, name: Seq<char>) -> int
        recommends
            self.has_domain(name),
    {
        choose|i: int| 0 <= i < self.domains.len() && (#[trigger] self.domains[i]).name == name
    }

    /// A universe is well formed when its domains are, and no two of them
    /// have the same name.
    pub open spec fn wf(self) -> bool {
        &&& forall|i: int| 0 <= i < self.domains.len() ==> (#[trigger] self.domains[i]).wf()
        &&& forall|i: int, j: int|
            0 <= i < j < self.domains.len() ==> (#[trigger] self.domains[i]).name != (
            #[trigger] self.domains[j]).name
    }

    /// In a well-formed universe a name is the name of one domain at most.
    pub proof fn lemma_domain_index(self, name: Seq<char>, i: int)
        requires
            self.wf(),
            0 <= i < self.domains.len(),
            self.domains[i].name == name,
        ensures
            self.has_domain(name),
            self.domain_index(name) == i,
    {
        let j = self.domain_index(name);
        if j < i {
            assert(self.domains[j].name != self.domains[i].name);
        } else if i < j {
            assert(self.domains[i].name != self.domains[j].name);
        }
    }

    /// The universe with `table` appended to the tables of the domain at `d`.
    pub open spec fn with_table(self, d: int, table: TableInfo) -> UniverseState {
        UniverseState {
            domains: self.domains.update(
                d,
                DomainState {
                    name: self.domains[d].name,
                    locked: self.domains[d].locked,
                    tables: self.domains[d].tables.push(table),
                },
            ),
        }
    }

    /// The outcome of registering `table`. Its domain must be registered and
    /// not locked. Where the domain has no table of that name, the table is
    /// entered. Where it has one, that one stays, and the two must have the
    /// same structure.
    pub open spec fn register(self, table: TableInfo) -> Result<UniverseState, TableError> {
        if !self.has_domain(table.domain) {
            Err(TableError::UnknownDomain)
        } else {
            let d = self.domain_index(table.domain);
            let domain = self.domains[d];
            if domain.locked {
                Err(TableError::DomainLocked)
            } else if domain.has_table(table.name) {
                if table.equivalent(domain.tables[domain.table_index(table.name)]) {
                    Ok(self)
                } else {
                    Err(TableError::SchemaConflict)
                }
            } else {
                Ok(self.with_table(d, table))
            }
        }
    }

    /// The outcome of asking for the table called `name` in the domain at
    /// `id`.
    pub open spec fn get_generic_table(self, id: DomainId, name: Seq<char>) -> Result<
        TableInfo,
        TableError,
    > {
        if id.0 >= self.domains.len() {
            Err(TableError::UnknownDomain)
        } else if !self.domains[id.0 as int].has_table(name) {
            Err(TableError::Missing)
        } else {
            Ok(self.domains[id.0 as int].tables[self.domains[id.0 as int].table_index(name)])
        }
    }
}

/// A domain with its tables.
#[derive(Debug)]
pub struct DomainInfo {
    name: DomainName,
    locked: bool,
    tables: Vec<GenericTable>,
}

impl View for DomainInfo {
    type V = DomainState;

    closed spec fn view(&self) -> DomainState {
        DomainState {
            name: self.name@,
            locked: self.locked,
            tables: Seq::new(self.tables@.len(), |i: int| self.tables@[i]@),
        }
    }
}

impl DomainInfo {
    /// Whether each table of the domain is well formed in itself.
    closed spec fn tables_inv(self) -> bool {
        forall|i: int| 0 <= i < self.tables@.len() ==> (#[trigger] self.tables@[i]).inv()
    }

    /// The place of the table called `name`, if there is one.
    fn find_table(&self, name: &str) -> (r: Option<usize>)
        requires
            self@.wf(),
        ensures
            self@.has_table(name@) <==> r is Some,
            r matches Some(i) ==> i == self@.table_index(name@) && i < self.tables@.len(),
    {
        let mut i: usize = 0;
        while i < self.tables.len()
            invariant
                i <= self.tables@.len(),
                self@.wf(),
                forall|k: int| 0 <= k < i ==> (#[trigger] self@.tables[k]).name != name@,
            decreases self.tables@.len() - i,
        {
            if str_eq(self.tables[i].name().0, name) {
                proof {
                    self@.lemma_table_index(name@, i as int);
                }
                return Some(i);
            }
            i += 1;
        }
        None
    }
}

/// A context object whose reference should be passed around everywhere: the
/// registry of domains and of their tables.
#[derive(Debug)]
pub struct Universe {
    domains: Vec<DomainInfo>,
}

impl View for Universe {
    type V = UniverseState;

    closed spec fn view(&self) -> UniverseState {
        UniverseState { domains: Seq::new(self.domains@.len(), |i: int| self.domains@[i]@) }
    }
}

impl Universe {
    #[verifier::type_invariant]
    pub closed spec fn inv(self) -> bool {
        &&& self@.wf()
        &&& forall|i: int| 0 <= i < self.domains@.len() ==> (#[trigger] self.domains@[i]).tables_inv()
    }

    /// A universe is well formed.
    pub proof fn lemma_inv_wf(self)
        requires
            self.inv(),
        ensures
            self@.wf(),
    {
    }

    /// A universe without domains.
    pub fn new() -> (universe: Universe)
        ensures
            universe@.domains.len() == 0,
    {
        Universe { domains: Vec::new() }
    }

    /// The place of the domain called `name`, if there is one.
    fn find_domain(&self, name: &str) -> (r: Option<usize>)
        ensures
            self.inv(),
            self@.has_domain(name@) <==> r is Some,
            r matches Some(i) ==> i == self@.domain_index(name@) && i < self.domains@.len(),
    {
        proof {
            use_type_invariant(self);
        }
        let mut i: usize = 0;
        while i < self.domains.len()
            invariant
                i <= self.domains@.len(),
                self.inv(),
                forall|k: int| 0 <= k < i ==> (#[trigger] self@.domains[k]).name != name@,
            decreases self.domains@.len() - i,
        {
            if str_eq(self.domains[i].name.0, name) {
                proof {
                    self@.lemma_domain_index(name@, i as int);
                }
                return Some(i);
            }
            i += 1;
        }
        None
    }
}

impl UniverseState {
    /// The universe with a domain called `name`: as it is where it has one,
    /// else with an unlocked domain without tables appended.
    pub open spec fn with_domain(self, name: Seq<char>) -> UniverseState {
        if self.has_domain(name) {
            self
        } else {
            UniverseState {
                domains: self.domains.push(
                    DomainState { name, locked: false, tables: Seq::empty() },
                ),
            }
        }
    }

    /// The universe with the domain at `d` locked.
    pub open spec fn with_lock(self, d: int) -> UniverseState {
        UniverseState {
            domains: self.domains.update(
                d,
                DomainState {
                    name: self.domains[d].name,
                    locked: true,
                    tables: self.domains[d].tables,
                },
            ),
        }
    }
}

impl DomainName {
    /// Enter the domain in the universe, unlocked and without tables. A
    /// domain that is there already stays as it is. The name must obey the
    /// grammar of names.
    pub fn register(self, universe: &mut Universe) -> (r: Result<DomainId, TableError>)
        ensures
            valid_name(self@) <==> r is Ok,
            r matches Ok(id) ==> {
                &&& final(universe)@ == old(universe)@.with_domain(self@)
                &&& final(universe)@.has_domain(self@)
                &&& id.0 == final(universe)@.domain_index(self@)
            },
            r matches Err(e) ==> e == TableError::InvalidName && final(universe)@ == old(universe)@,
    {
        if !check_name(self.0) {
            return Err(TableError::InvalidName);
        }
        if let Some(i) = universe.find_domain(self.0) {
            return Ok(DomainId(i));
        }
        let ghost before = *universe;
        let mut domains: Vec<DomainInfo> = Vec::new();
        core::mem::swap(&mut universe.domains, &mut domains);
        let id = domains.len();
        domains.push(DomainInfo { name: self, locked: false, tables: Vec::new() });
        proof {
            let after = UniverseState { domains: Seq::new(domains@.len(), |i: int| domains@[i]@) };
            assert(domains@[id as int]@.tables =~= Seq::empty());
            assert(after.domains =~= before@.with_domain(self@).domains);
            assert forall|i: int, j: int| 0 <= i < j < after.domains.len() implies (
            #[trigger] after.domains[i]).name != (#[trigger] after.domains[j]).name by {
                if j == id {
                    assert(before@.domains[i].name != self@);
                } else {
                    assert(before@.domains[i].name != before@.domains[j].name);
                }
            }
            assert forall|i: int| 0 <= i < after.domains.len() implies (
            #[trigger] after.domains[i]).wf() by {
                if i < id {
                    assert(before@.domains[i].wf());
                }
            }
            assert forall|i: int| 0 <= i < domains@.len() implies (
            #[trigger] domains@[i]).tables_inv() by {
                if i < id {
                    assert(before.domains@[i].tables_inv());
                }
            }
            after.lemma_domain_index(self@, id as int);
        }
        universe.domains = domains;
        Ok(DomainId(id))
    }

    /// The place of the domain in the universe, if it is registered.
    pub fn get_id(&self, universe: &Universe) -> (r: Option<DomainId>)
        ensures
            universe@.has_domain(self@) <==> r is Some,
            r matches Some(id) ==> id.0 == universe@.domain_index(self@) && id.0
                < universe@.domains.len(),
    {
        match universe.find_domain(self.0) {
            Some(i) => Some(DomainId(i)),
            None => None,
        }
    }
}

impl Universe {
    /// Lock the domain: it takes no more tables afterwards.
    pub fn lock_domain(&mut self, domain: DomainName) -> (r: Result<(), TableError>)
        ensures
            old(self)@.has_domain(domain@) <==> r is Ok,
            r is Ok ==> final(self)@ == old(self)@.with_lock(old(self)@.domain_index(domain@)),
            r matches Err(e) ==> e == TableError::UnknownDomain && final(self)@ == old(self)@,
    {
        let d = match self.find_domain(domain.0) {
            Some(d) => d,
            None => {
                return Err(TableError::UnknownDomain);
            },
        };
        let ghost before = *self;
        let mut domains: Vec<DomainInfo> = Vec::new();
        core::mem::swap(&mut self.domains, &mut domains);
        let mut info = domains.remove(d);
        info.locked = true;
        domains.insert(d, info);
        proof {
            let after = UniverseState { domains: Seq::new(domains@.len(), |i: int| domains@[i]@) };
            assert(domains@[d as int]@.tables =~= before@.domains[d as int].tables);
            assert(after.domains =~= before@.with_lock(d as int).domains);
            assert forall|i: int, j: int| 0 <= i < j < after.domains.len() implies (
            #[trigger] after.domains[i]).name != (#[trigger] after.domains[j]).name by {
                assert(before@.domains[i].name != before@.domains[j].name);
            }
            assert forall|i: int| 0 <= i < after.domains.len() implies (
            #[trigger] after.domains[i]).wf() by {
                assert(before@.domains[i].wf());
            }
            assert forall|i: int| 0 <= i < domains@.len() implies (
            #[trigger] domains@[i]).tables_inv() by {
                assert(before.domains@[i].tables_inv());
            }
        }
        self.domains = domains;
        Ok(())
    }

    /// Whether the domain is locked, if it is registered.
    pub fn is_locked(&self, domain: DomainName) -> (r: Option<bool>)
        ensures
            self@.has_domain(domain@) <==> r is Some,
            r matches Some(locked) ==> locked == self@.domains[self@.domain_index(
                domain@,
            )].locked,
    {
        match self.find_domain(domain.0) {
            Some(d) => Some(self.domains[d].locked),
            None => None,
        }
    }
}

impl GenericTable {
    /// Enter this table in its domain. The domain must be registered and not
    /// locked. Where the domain has a table of that name already, that one
    /// stays, and this one must have the same structure.
    pub fn register(self, universe: &mut Universe) -> (r: Result<(), TableError>)
        ensures
            self@.wf(),
            old(universe)@.wf(),
            match r {
                Ok(_) => old(universe)@.register(self@) == Ok::<UniverseState, TableError>(
                    final(universe)@,
                ),
                Err(e) => old(universe)@.register(self@) == Err::<UniverseState, TableError>(e)
                    && final(universe)@ == old(universe)@,
            },
    {
        proof {
            use_type_invariant(&self);
            self.lemma_inv_wf();
        }
        let d = match universe.find_domain(self.domain().0) {
            Some(d) => d,
            None => {
                return Err(TableError::UnknownDomain);
            },
        };
        if universe.domains[d].locked {
            return Err(TableError::DomainLocked);
        }
        assert(universe@.domains[d as int].wf());
        if let Some(t) = universe.domains[d].find_table(self.name().0) {
            return if self.equivalent(&universe.domains[d].tables[t]) {
                Ok(())
            } else {
                Err(TableError::SchemaConflict)
            };
        }
        let ghost before = *universe;
        let ghost table = self@;
        let mut domains: Vec<DomainInfo> = Vec::new();
        core::mem::swap(&mut universe.domains, &mut domains);
        let mut info = domains.remove(d);
        info.tables.push(self);
        domains.insert(d, info);
        proof {
            let after = UniverseState { domains: Seq::new(domains@.len(), |i: int| domains@[i]@) };
            let old_domain = before@.domains[d as int];
            assert(domains@[d as int]@.tables =~= old_domain.tables.push(table));
            assert(after.domains =~= before@.with_table(d as int, table).domains);
            assert forall|i: int, j: int| 0 <= i < j < after.domains.len() implies (
            #[trigger] after.domains[i]).name != (#[trigger] after.domains[j]).name by {
                assert(before@.domains[i].name != before@.domains[j].name);
            }
            assert forall|i: int| 0 <= i < after.domains.len() implies (
            #[trigger] after.domains[i]).wf() by {
                assert(before@.domains[i].wf());
                if i == d {
                    let now = after.domains[i];
                    assert forall|a: int, b: int| 0 <= a < b < now.tables.len() implies (
                    #[trigger] now.tables[a]).name != (#[trigger] now.tables[b]).name by {
                        if b == old_domain.tables.len() {
                            assert(old_domain.tables[a].name != table.name);
                        } else {
                            assert(old_domain.tables[a].name != old_domain.tables[b].name);
                        }
                    }
                    assert forall|a: int| 0 <= a < now.tables.len() implies (
                    #[trigger] now.tables[a]).wf() && now.tables[a].domain == now.name by {
                        if a < old_domain.tables.len() {
                            assert(old_domain.tables[a].wf());
                        }
                    }
                }
            }
            assert forall|i: int| 0 <= i < domains@.len() implies (
            #[trigger] domains@[i]).tables_inv() by {
                assert(before.domains@[i].tables_inv());
                if i == d {
                    assert forall|a: int| 0 <= a < domains@[i].tables@.len() implies (
                    #[trigger] domains@[i].tables@[a]).inv() by {
                        if a < before.domains@[i].tables@.len() {
                            assert(before.domains@[i].tables@[a].inv());
                        }
                    }
                }
            }
        }
        universe.domains = domains;
        Ok(())
    }
}

/// The tables of `domains`, domain by domain.
pub open spec fn all_tables(domains: Seq<DomainState>) -> Seq<TableInfo>
    decreases domains.len(),
{
    if domains.len() == 0 {
        Seq::empty()
    } else {
        all_tables(domains.drop_last()) + domains.last().tables
    }
}

/// The summaries of `tables`, with a space between one and the next.
pub open spec fn joined_summaries(tables: Seq<TableInfo>) -> Seq<char>
    decreases tables.len(),
{
    if tables.len() == 0 {
        Seq::empty()
    } else if tables.len() == 1 {
        tables[0].summary()
    } else {
        joined_summaries(tables.drop_last()) + seq![' '] + tables.last().summary()
    }
}

impl Universe {
    /// The table called `name` in the domain at `domain_id`.
    pub fn get_generic_table(&self, domain_id: DomainId, name: TableName) -> (r: Result<
        &GenericTable,
        TableError,
    >)
        ensures
            match r {
                Ok(table) => self@.get_generic_table(domain_id, name@) == Ok::<
                    TableInfo,
                    TableError,
                >(table@),
                Err(e) => self@.get_generic_table(domain_id, name@) == Err::<
                    TableInfo,
                    TableError,
                >(e),
            },
    {
        proof {
            use_type_invariant(self);
        }
        if domain_id.0 >= self.domains.len() {
            return Err(TableError::UnknownDomain);
        }
        let domain = &self.domains[domain_id.0];
        assert(self@.domains[domain_id.0 as int].wf());
        match domain.find_table(name.0) {
            Some(t) => Ok(&domain.tables[t]),
            None => Err(TableError::Missing),
        }
    }

    /// The names of all the tables, domain by domain, each domain's in the
    /// order of their registration.
    pub fn table_names(&self) -> (ret: Vec<TableName>)
        ensures
            ret@.len() == all_tables(self@.domains).len(),
            forall|k: int|
                0 <= k < ret@.len() ==> (#[trigger] ret@[k])@ == all_tables(self@.domains)[k].name,
    {
        let mut ret: Vec<TableName> = Vec::new();
        let mut d: usize = 0;
        assert(self@.domains.take(0) =~= Seq::empty());
        while d < self.domains.len()
            invariant
                d <= self.domains@.len(),
                ret@.len() == all_tables(self@.domains.take(d as int)).len(),
                forall|k: int|
                    0 <= k < ret@.len() ==> (#[trigger] ret@[k])@ == all_tables(
                        self@.domains.take(d as int),
                    )[k].name,
            decreases self.domains@.len() - d,
        {
            let domain = &self.domains[d];
            let ghost done = all_tables(self@.domains.take(d as int));
            let mut t: usize = 0;
            while t < domain.tables.len()
                invariant
                    t <= domain.tables@.len(),
                    ret@.len() == done.len() + t,
                    forall|k: int| 0 <= k < done.len() ==> (#[trigger] ret@[k])@ == done[k].name,
                    forall|k: int|
                        0 <= k < t ==> (#[trigger] ret@[done.len() + k])@
                            == domain@.tables[k].name,
                decreases domain.tables@.len() - t,
            {
                let name = domain.tables[t].name();
                ret.push(name);
                t += 1;
            }
            proof {
                let upto = self@.domains.take(d + 1);
                assert(upto.drop_last() =~= self@.domains.take(d as int));
                assert(upto.last() == self@.domains[d as int]);
                assert(all_tables(upto) == done + domain@.tables);
                assert forall|k: int| 0 <= k < ret@.len() implies (#[trigger] ret@[k])@
                    == all_tables(upto)[k].name by {
                    if k >= done.len() {
                        assert(ret@[done.len() + (k - done.len())]@ == domain@.tables[k
                            - done.len()].name);
                    }
                }
            }
            d += 1;
        }
        assert(self@.domains.take(d as int) =~= self@.domains);
        ret
    }
}

impl<T: GetTableName> GenericRowId<T> {
    /// The registered description of the table that this row belongs to:
    /// the table of the row's table name in the domain of its domain name.
    pub fn get_generic_table(universe: &Universe) -> (r: Result<&GenericTable, TableError>)
        ensures
            exists|domain: DomainName, name: TableName|
                {
                    &&& call_ensures(T::get_domain, (), domain)
                    &&& call_ensures(T::get_name, (), name)
                    &&& match r {
                        Ok(table) => Ok::<TableInfo, TableError>(table@)
                            == universe@.get_table_by_name(domain@, name@),
                        Err(e) => Err::<TableInfo, TableError>(e) == universe@.get_table_by_name(
                            domain@,
                            name@,
                        ),
                    }
                },
    {
        let domain = Self::get_domain();
        let name = Self::get_name();
        let domain_id = match domain.get_id(universe) {
            Some(id) => id,
            None => {
                return Err(TableError::UnknownDomain);
            },
        };
        let r = universe.get_generic_table(domain_id, name);
        assert(call_ensures(T::get_domain, (), domain) && call_ensures(T::get_name, (), name)
            && match r {
            Ok(table) => Ok::<TableInfo, TableError>(table@) == universe@.get_table_by_name(
                domain@,
                name@,
            ),
            Err(e) => Err::<TableInfo, TableError>(e) == universe@.get_table_by_name(
                domain@,
                name@,
            ),
        });
        r
    }
}

impl UniverseState {
    /// The outcome of asking for the table called `name` in the domain
    /// called `domain`.
    pub open spec fn get_table_by_name(self, domain: Seq<char>, name: Seq<char>) -> Result<
        TableInfo,
        TableError,
    > {
        if !self.has_domain(domain) {
            Err(TableError::UnknownDomain)
        } else {
            self.get_generic_table(DomainId(self.domain_index(domain) as usize), name)
        }
    }
}

impl Universe {
    /// Returns a string describing all the tables in the universe, but not
    /// their contents: the tables' summaries, with a space between one and
    /// the next.
    pub fn info(&self) -> (ret: String)
        ensures
            ret@ == joined_summaries(all_tables(self@.domains)),
    {
        proof {
            reveal_strlit("");
            reveal_strlit(" ");
        }
        let mut ret = String::from_str("");
        assert(ret@ =~= Seq::<char>::empty());
        let mut first = true;
        let mut d: usize = 0;
        assert(self@.domains.take(0) =~= Seq::empty());
        while d < self.domains.len()
            invariant
                d <= self.domains@.len(),
                " "@ == seq![' '],
                first == (all_tables(self@.domains.take(d as int)).len() == 0),
                ret@ == joined_summaries(all_tables(self@.domains.take(d as int))),
            decreases self.domains@.len() - d,
        {
            let domain = &self.domains[d];
            let ghost done = all_tables(self@.domains.take(d as int));
            let mut t: usize = 0;
            assert(done + domain@.tables.take(0) =~= done);
            while t < domain.tables.len()
                invariant
                    t <= domain.tables@.len(),
                    " "@ == seq![' '],
                    first == ((done + domain@.tables.take(t as int)).len() == 0),
                    ret@ == joined_summaries(done + domain@.tables.take(t as int)),
                decreases domain.tables@.len() - t,
            {
                let ghost was = done + domain@.tables.take(t as int);
                let ghost now = done + domain@.tables.take(t + 1);
                if !first {
                    ret.append(" ");
                }
                first = false;
                let summary = domain.tables[t].info();
                ret.append(summary.as_str());
                proof {
                    assert(now =~= was.push(domain@.tables[t as int]));
                    assert(now.drop_last() =~= was);
                    assert(now.last() == domain@.tables[t as int]);
                    if was.len() == 0 {
                        assert(ret@ =~= now[0].summary());
                    }
                }
                t += 1;
            }
            proof {
                let upto = self@.domains.take(d + 1);
                assert(upto.drop_last() =~= self@.domains.take(d as int));
                assert(upto.last() == self@.domains[d as int]);
                assert(domain@.tables.take(t as int) =~= domain@.tables);
            }
            d += 1;
        }
        assert(self@.domains.take(d as int) =~= self@.domains);
        ret
    }
}

impl UniverseState {
    /// To register a table a second time, with the same structure, succeeds
    /// and changes nothing: the universe is as the first registration left it.
    pub proof fn lemma_register_twice(self, table: TableInfo, again: TableInfo)
        requires
            self.wf(),
            table.wf(),
            self.register(table) is Ok,
            again.equivalent(table),
        ensures
            self.register(table)->Ok_0.wf(),
            self.register(table)->Ok_0.register(again) == Ok::<UniverseState, TableError>(
                self.register(table)->Ok_0,
            ),
    {
        let after = self.register(table)->Ok_0;
        self.lemma_register_keeps_wf(table);
        let d = self.domain_index(table.domain);
        after.lemma_domain_index(table.domain, d);
        let domain = self.domains[d];
        if domain.has_table(table.name) {
            let entry = domain.tables[domain.table_index(table.name)];
            assert(again.equivalent(entry));
        } else {
            let t = domain.tables.len() as int;
            after.domains[d].lemma_table_index(table.name, t);
        }
    }

    /// To register, over a table that is registered, one of the same name
    /// and another structure fails, and changes nothing.
    pub proof fn lemma_register_conflict(self, table: TableInfo, other: TableInfo)
        requires
            self.wf(),
            table.wf(),
            self.register(table) is Ok,
            other.domain == table.domain,
            other.name == table.name,
            !other.equivalent(table),
        ensures
            self.register(table)->Ok_0.register(other) == Err::<UniverseState, TableError>(
                TableError::SchemaConflict,
            ),
    {
        let after = self.register(table)->Ok_0;
        self.lemma_register_keeps_wf(table);
        let d = self.domain_index(table.domain);
        after.lemma_domain_index(table.domain, d);
        let domain = self.domains[d];
        if domain.has_table(table.name) {
            let entry = domain.tables[domain.table_index(table.name)];
            assert(table.equivalent(entry));
            assert(!other.equivalent(entry));
        } else {
            let t = domain.tables.len() as int;
            after.domains[d].lemma_table_index(table.name, t);
        }
    }

    /// Registration leaves a well-formed universe well formed.
    pub proof fn lemma_register_keeps_wf(self, table: TableInfo)
        requires
            self.wf(),
            table.wf(),
            self.register(table) is Ok,
        ensures
            self.register(table)->Ok_0.wf(),
            self.register(table)->Ok_0.domains.len() == self.domains.len(),
            forall|i: int|
                0 <= i < self.domains.len() ==> (#[trigger] self.register(
                    table,
                )->Ok_0.domains[i]).name == self.domains[i].name && self.register(
                    table,
                )->Ok_0.domains[i].locked == self.domains[i].locked,
    {
        let after = self.register(table)->Ok_0;
        let d = self.domain_index(table.domain);
        let domain = self.domains[d];
        assert(domain.wf());
        if !domain.has_table(table.name) {
            let now = after.domains[d];
            assert forall|a: int, b: int| 0 <= a < b < now.tables.len() implies (
            #[trigger] now.tables[a]).name != (#[trigger] now.tables[b]).name by {
                if b == domain.tables.len() {
                    assert(domain.tables[a].name != table.name);
                } else {
                    assert(domain.tables[a].name != domain.tables[b].name);
                }
            }
            assert forall|a: int| 0 <= a < now.tables.len() implies (#[trigger] now.tables[a]).wf()
                && now.tables[a].domain == now.name by {
                if a < domain.tables.len() {
                    assert(domain.tables[a].wf());
                }
            }
            assert forall|i: int| 0 <= i < after.domains.len() implies (
            #[trigger] after.domains[i]).wf() by {
                assert(self.domains[i].wf());
            }
            assert forall|i: int, j: int| 0 <= i < j < after.domains.len() implies (
            #[trigger] after.domains[i]).name != (#[trigger] after.domains[j]).name by {
                assert(self.domains[i].name != self.domains[j].name);
            }
        }
    }
}

} // verus!
