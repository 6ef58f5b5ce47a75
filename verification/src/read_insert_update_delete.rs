//! The CRUD routing layer: the explicit table registry, the parsed table
//! names the routes address, and the paginated read operation behind
//! `GET /<table>/items`.
//!
//! Mutating routes are two-line compositions at the boundary — an engine
//! call plus an echo of the entity — so the engine operations themselves
//! ([`crate::database_operations`]) carry their contracts; what stands
//! here is the logic the routes share: name parsing, pagination
//! arithmetic, and the dispatch over the registry.

use vstd::prelude::*;

use crate::database_operations::{
    count_rows, load_data, rank_window, row_keys, row_values, DbTable, SchemaTable,
};
use crate::error::Error;
use crate::schema::{City, Continent, Country, District, Region, UserInfo};
use crate::values::text_eq;

verus! {

/// An update payload: the entity as the client last read it, and its
/// replacement.
#[derive(Debug)]
pub struct OldNew<T> {
    pub old: T,
    pub new: T,
}

/// The whole store: one entity table per field, the explicit
/// table-name-to-descriptor registry built at startup and passed into the
/// boundary — never ambient global state.
pub struct Database {
    pub continents: DbTable<Continent>,
    pub cities: DbTable<City>,
    pub countries: DbTable<Country>,
    pub districts: DbTable<District>,
    pub regions: DbTable<Region>,
    pub users: DbTable<UserInfo>,
}

impl Database {
    /// Every table well-formed.
    pub open spec fn wf(&self) -> bool {
        &&& self.continents.wf()
        &&& self.cities.wf()
        &&& self.countries.wf()
        &&& self.districts.wf()
        &&& self.regions.wf()
        &&& self.users.wf()
    }

    /// An empty store.
    pub fn new() -> (db: Database)
        ensures
            db.wf(),
            db.continents.spec_rows() == Seq::<Continent>::empty(),
            db.cities.spec_rows() == Seq::<City>::empty(),
            db.countries.spec_rows() == Seq::<Country>::empty(),
            db.districts.spec_rows() == Seq::<District>::empty(),
            db.regions.spec_rows() == Seq::<Region>::empty(),
            db.users.spec_rows() == Seq::<UserInfo>::empty(),
    {
        Database {
            continents: DbTable::new(),
            cities: DbTable::new(),
            countries: DbTable::new(),
            districts: DbTable::new(),
            regions: DbTable::new(),
            users: DbTable::new(),
        }
    }
}

/// The CRUD-routable tables.
#[derive(Debug, PartialEq, Eq, Structural, Clone, Copy)]
pub enum Table {
    Continents,
    Cities,
    Countries,
    Districts,
    Regions,
}

/// The table segment of a route name: everything before the first `.`,
/// so that template-style page names such as `continents.tera` address
/// their tables.
pub open spec fn name_segment(s: Seq<char>) -> Seq<char>
    decreases s.len(),
{
    if s.len() == 0 {
        s
    } else if s[0] == '.' {
        Seq::empty()
    } else {
        seq![s[0]] + name_segment(s.drop_first())
    }
}

/// The segment of a name whose first `.` — or end — stands at `i` is its
/// prefix of length `i`.
proof fn lemma_name_segment(s: Seq<char>, i: int)
    requires
        0 <= i <= s.len(),
        forall|j: int| 0 <= j < i ==> s[j] != '.',
        i == s.len() || s[i] == '.',
    ensures
        name_segment(s) == s.subrange(0, i),
    decreases s.len(),
{
    if s.len() == 0 {
        assert(name_segment(s) =~= s.subrange(0, 0));
    } else if s[0] == '.' {
        assert(i == 0);
        assert(name_segment(s) =~= s.subrange(0, 0));
    } else {
        let d = s.drop_first();
        assert(forall|j: int| 0 <= j < d.len() ==> d[j] == s[j + 1]);
        lemma_name_segment(d, i - 1);
        assert(seq![s[0]] + d.subrange(0, i - 1) =~= s.subrange(0, i));
    }
}

impl Table {
    /// Parses the table a route addresses from its name's segment before
    /// the first `.`; a segment that is no table is refused as
    /// [`Error::UnknownTable`].
    pub fn parse(name: String) -> (r: Result<Table, Error>)
        ensures
            ({
                let seg = name_segment(name@);
                match r {
                    Ok(t) => match t {
                        Table::Continents => seg == "continents"@,
                        Table::Cities => seg == "cities"@,
                        Table::Countries => seg == "countries"@,
                        Table::Districts => seg == "districts"@,
                        Table::Regions => seg == "regions"@,
                    },
                    Err(e) => (match e {
                        Error::UnknownTable { table } => table@ == name@,
                        _ => false,
                    }) && seg != "continents"@ && seg != "cities"@ && seg != "countries"@ && seg
                        != "districts"@ && seg != "regions"@,
                }
            }),
    {
        let n: usize = name.as_str().unicode_len();
        let mut i: usize = 0;
        while i < n && name.as_str().get_char(i) != '.'
            invariant
                0 <= i <= n,
                n == name@.len(),
                forall|j: int| 0 <= j < i ==> name@[j] != '.',
            decreases n - i,
        {
            i = i + 1;
        }
        let prefix = name.as_str().substring_char(0, i);
        proof {
            lemma_name_segment(name@, i as int);
        }
        if text_eq(prefix, "continents") {
            Ok(Table::Continents)
        } else if text_eq(prefix, "cities") {
            Ok(Table::Cities)
        } else if text_eq(prefix, "countries") {
            Ok(Table::Countries)
        } else if text_eq(prefix, "districts") {
            Ok(Table::Districts)
        } else if text_eq(prefix, "regions") {
            Ok(Table::Regions)
        } else {
            Err(Error::UnknownTable { table: name })
        }
    }
}

/// One page of whichever table a route addressed.
#[derive(Debug)]
pub enum TableRows {
    Continents(Vec<Continent>),
    Cities(Vec<City>),
    Countries(Vec<Country>),
    Districts(Vec<District>),
    Regions(Vec<Region>),
}

/// The response of the paginated read route: the table's total row count
/// and the requested page.
#[derive(Debug)]
pub struct ItemsPage {
    pub items_count: usize,
    pub rows: TableRows,
}

/// Whether one table's page, as returned, is the ranked window the
/// pagination contract asks for, with the table's exact row count.
pub open spec fn page_of<T: SchemaTable>(
    table: DbTable<T>,
    v: Seq<T>,
    count: int,
    page_index: int,
    page_size: int,
) -> bool {
    let lower = (page_index - 1) * page_size + 1;
    let upper = page_index * page_size;
    let w = rank_window(table.spec_rows(), lower, upper);
    &&& count == table.spec_rows().len()
    &&& row_values(v) == row_values(w)
    &&& row_keys(v) == row_keys(w)
}

/// The paginated read behind `GET /<table>/items`: pages are 1-indexed,
/// `page_size` rows per page, rows ranked by primary key.  A page index
/// or size of zero — or a window whose bounds do not fit the machine —
/// is refused as [`Error::InvalidArgument`] before the table name is
/// looked at; an unknown table is refused as [`Error::UnknownTable`].
pub fn read_data(db: &Database, table_name: String, page_index: usize, page_size: usize) -> (r:
    Result<ItemsPage, Error>)
    requires
        db.wf(),
    ensures
        ({
            let seg = name_segment(table_name@);
            let args_ok = page_index >= 1 && page_size >= 1 && page_index * page_size
                <= usize::MAX;
            match r {
                Ok(page) => args_ok && match page.rows {
                    TableRows::Continents(v) => seg == "continents"@ && page_of(
                        db.continents,
                        v@,
                        page.items_count as int,
                        page_index as int,
                        page_size as int,
                    ),
                    TableRows::Cities(v) => seg == "cities"@ && page_of(
                        db.cities,
                        v@,
                        page.items_count as int,
                        page_index as int,
                        page_size as int,
                    ),
                    TableRows::Countries(v) => seg == "countries"@ && page_of(
                        db.countries,
                        v@,
                        page.items_count as int,
                        page_index as int,
                        page_size as int,
                    ),
                    TableRows::Districts(v) => seg == "districts"@ && page_of(
                        db.districts,
                        v@,
                        page.items_count as int,
                        page_index as int,
                        page_size as int,
                    ),
                    TableRows::Regions(v) => seg == "regions"@ && page_of(
                        db.regions,
                        v@,
                        page.items_count as int,
                        page_index as int,
                        page_size as int,
                    ),
                },
                Err(e) => match e {
                    Error::InvalidArgument => !args_ok,
                    Error::UnknownTable { table } => args_ok && table@ == table_name@ && seg
                        != "continents"@ && seg != "cities"@ && seg != "countries"@ && seg
                        != "districts"@ && seg != "regions"@,
                    _ => false,
                },
            }
        }),
{
    if page_index < 1 || page_size < 1 {
        return Err(Error::InvalidArgument);
    }
    let record_higher: usize = match page_index.checked_mul(page_size) {
        Some(u) => u,
        None => {
            return Err(Error::InvalidArgument);
        },
    };
    proof {
        assert((page_index - 1) * page_size + page_size == page_index * page_size)
            by (nonlinear_arith);
        assert((page_index - 1) * page_size >= 0) by (nonlinear_arith)
            requires
                page_index >= 1,
                page_size >= 0,
        ;
    }
    let record_lower: usize = (page_index - 1) * page_size + 1;
    let table = match Table::parse(table_name) {
        Ok(t) => t,
        Err(e) => {
            return Err(e);
        },
    };
    match table {
        Table::Continents => {
            let rows = match count_rows(&db.continents) {
                Ok(n) => n,
                Err(e) => {
                    proof {
                        assert(false);
                    }
                    return Err(e);
                },
            };
            let data = match load_data(&db.continents, record_lower, record_higher) {
                Ok(v) => v,
                Err(e) => {
                    proof {
                        assert(false);
                    }
                    return Err(e);
                },
            };
            Ok(ItemsPage { items_count: rows, rows: TableRows::Continents(data) })
        },
        Table::Cities => {
            let rows = match count_rows(&db.cities) {
                Ok(n) => n,
                Err(e) => {
                    proof {
                        assert(false);
                    }
                    return Err(e);
                },
            };
            let data = match load_data(&db.cities, record_lower, record_higher) {
                Ok(v) => v,
                Err(e) => {
                    proof {
                        assert(false);
                    }
                    return Err(e);
                },
            };
            Ok(ItemsPage { items_count: rows, rows: TableRows::Cities(data) })
        },
        Table::Countries => {
            let rows = match count_rows(&db.countries) {
                Ok(n) => n,
                Err(e) => {
                    proof {
                        assert(false);
                    }
                    return Err(e);
                },
            };
            let data = match load_data(&db.countries, record_lower, record_higher) {
                Ok(v) => v,
                Err(e) => {
                    proof {
                        assert(false);
                    }
                    return Err(e);
                },
            };
            Ok(ItemsPage { items_count: rows, rows: TableRows::Countries(data) })
        },
        Table::Districts => {
            let rows = match count_rows(&db.districts) {
                Ok(n) => n,
                Err(e) => {
                    proof {
                        assert(false);
                    }
                    return Err(e);
                },
            };
            let data = match load_data(&db.districts, record_lower, record_higher) {
                Ok(v) => v,
                Err(e) => {
                    proof {
                        assert(false);
                    }
                    return Err(e);
                },
            };
            Ok(ItemsPage { items_count: rows, rows: TableRows::Districts(data) })
        },
        Table::Regions => {
            let rows = match count_rows(&db.regions) {
                Ok(n) => n,
                Err(e) => {
                    proof {
                        assert(false);
                    }
                    return Err(e);
                },
            };
            let data = match load_data(&db.regions, record_lower, record_higher) {
                Ok(v) => v,
                Err(e) => {
                    proof {
                        assert(false);
                    }
                    return Err(e);
                },
            };
            Ok(ItemsPage { items_count: rows, rows: TableRows::Regions(data) })
        },
    }
}

} // verus!
