//! The concrete entities of the geography dataset and of the user store,
//! each with its [`SchemaTable`] descriptor.
//!
//! All rows are transient: materialized from a query result, handed to the
//! caller, never cached.  Every descriptor is written out once per entity
//! type, so column order, key order and bound-value order are aligned at
//! compile time — the load-bearing invariant of the CRUD engine.
//! `fg_*` fields are soft foreign keys; their enforcement, if any, lives in
//! the backing schema, not in this core.

use vstd::prelude::*;

use crate::database_operations::{names, SchemaTable};
use crate::error::Error;
use crate::values::{opt_number, opt_text, scalars, SqlScalar, SqlValue};

verus! {

/// A continent, keyed by name, with its surface area in square metres.
#[derive(Debug, PartialEq)]
pub struct Continent {
    pub name: String,
    pub area_m2: usize,
}

impl SchemaTable for Continent {
    open spec fn spec_table_name() -> Seq<char> {
        "continents"@
    }

    open spec fn spec_column_names() -> Seq<Seq<char>> {
        seq!["name"@, "area_m2"@]
    }

    open spec fn spec_key_attrs() -> Seq<Seq<char>> {
        seq!["name"@]
    }

    open spec fn spec_values(&self) -> Seq<SqlScalar> {
        seq![SqlScalar::Text(self.name@), SqlScalar::Number(self.area_m2 as int)]
    }

    open spec fn spec_key(&self) -> Seq<SqlScalar> {
        seq![SqlScalar::Text(self.name@)]
    }

    open spec fn spec_row_ok(row: Seq<SqlScalar>) -> bool {
        row.len() == 2 && row[0] is Text && row[1] is Number
    }

    proof fn descriptor_wf() {
        assert forall|k: Seq<char>|
            Self::spec_key_attrs().contains(k) implies Self::spec_column_names().contains(k) by {
            assert(Self::spec_key_attrs()[0] == "name"@);
            assert(Self::spec_column_names()[0] == "name"@);
        };
    }

    proof fn instance_wf(&self) {
    }

    proof fn key_of_values(a: &Self, b: &Self) {
        assert(a.spec_values()[0] == b.spec_values()[0]);
        assert(a.spec_key() =~= b.spec_key());
    }

    fn table_name() -> (r: &'static str) {
        "continents"
    }

    fn column_names() -> (r: Vec<&'static str>) {
        let r = vec!["name", "area_m2"];
        proof {
            assert(names(r@) =~= Self::spec_column_names());
        }
        r
    }

    fn key_attrs() -> (r: Vec<&'static str>) {
        let r = vec!["name"];
        proof {
            assert(names(r@) =~= Self::spec_key_attrs());
        }
        r
    }

    fn values(&self) -> (r: Vec<SqlValue>) {
        let r = vec![SqlValue::Text(self.name.clone()), SqlValue::Number(self.area_m2)];
        proof {
            assert(scalars(r@) =~= self.spec_values());
        }
        r
    }

    fn key_attr_values(&self) -> (r: Vec<SqlValue>) {
        let r = vec![SqlValue::Text(self.name.clone())];
        proof {
            assert(scalars(r@) =~= self.spec_key());
        }
        r
    }

    fn dup(&self) -> (r: Self) {
        let r = Continent { name: self.name.clone(), area_m2: self.area_m2 };
        proof {
            assert(r.spec_values() =~= self.spec_values());
            assert(r.spec_key() =~= self.spec_key());
        }
        r
    }

    fn from_row(row: &Vec<SqlValue>) -> (r: Result<Self, Error>) {
        proof {
            assert(scalars(row@).len() == row@.len());
        }
        if row.len() == 2 {
            proof {
                assert(scalars(row@)[0] == row@[0]@);
                assert(scalars(row@)[1] == row@[1]@);
            }
            match (&row[0], &row[1]) {
                (SqlValue::Text(name), SqlValue::Number(area)) => {
                    let e = Continent { name: name.clone(), area_m2: *area };
                    proof {
                        assert(e.spec_values() =~= scalars(row@));
                    }
                    return Ok(e);
                },
                _ => (),
            }
        }
        Err(Error::DeserializationError { table_name: <Self as SchemaTable>::table_name().to_owned() })
    }
}

/// Duplicates a nullable text column.
fn clone_opt_text(o: &Option<String>) -> (r: Option<String>)
    ensures
        r == *o,
{
    match o {
        Some(s) => Some(s.clone()),
        None => None,
    }
}

/// A city, keyed by its identifier, with an optional region it belongs to.
#[derive(Debug, PartialEq)]
pub struct City {
    pub city_id: usize,
    pub city_name: String,
    pub fg_region_id: Option<usize>,
}

impl SchemaTable for City {
    open spec fn spec_table_name() -> Seq<char> {
        "cities"@
    }

    open spec fn spec_column_names() -> Seq<Seq<char>> {
        seq!["city_id"@, "city_name"@, "fg_region_id"@]
    }

    open spec fn spec_key_attrs() -> Seq<Seq<char>> {
        seq!["city_id"@]
    }

    open spec fn spec_values(&self) -> Seq<SqlScalar> {
        seq![
            SqlScalar::Number(self.city_id as int),
            SqlScalar::Text(self.city_name@),
            opt_number(self.fg_region_id),
        ]
    }

    open spec fn spec_key(&self) -> Seq<SqlScalar> {
        seq![SqlScalar::Number(self.city_id as int)]
    }

    open spec fn spec_row_ok(row: Seq<SqlScalar>) -> bool {
        row.len() == 3 && row[0] is Number && row[1] is Text && row[2] is OptNumber
    }

    proof fn descriptor_wf() {
        assert forall|k: Seq<char>|
            Self::spec_key_attrs().contains(k) implies Self::spec_column_names().contains(k) by {
            assert(Self::spec_key_attrs()[0] == "city_id"@);
            assert(Self::spec_column_names()[0] == "city_id"@);
        };
    }

    proof fn instance_wf(&self) {
    }

    proof fn key_of_values(a: &Self, b: &Self) {
        assert(a.spec_values()[0] == b.spec_values()[0]);
        assert(a.spec_key() =~= b.spec_key());
    }

    fn table_name() -> (r: &'static str) {
        "cities"
    }

    fn column_names() -> (r: Vec<&'static str>) {
        let r = vec!["city_id", "city_name", "fg_region_id"];
        proof {
            assert(names(r@) =~= Self::spec_column_names());
        }
        r
    }

    fn key_attrs() -> (r: Vec<&'static str>) {
        let r = vec!["city_id"];
        proof {
            assert(names(r@) =~= Self::spec_key_attrs());
        }
        r
    }

    fn values(&self) -> (r: Vec<SqlValue>) {
        let r = vec![
            SqlValue::Number(self.city_id),
            SqlValue::Text(self.city_name.clone()),
            SqlValue::OptNumber(self.fg_region_id),
        ];
        proof {
            assert(scalars(r@) =~= self.spec_values());
        }
        r
    }

    fn key_attr_values(&self) -> (r: Vec<SqlValue>) {
        let r = vec![SqlValue::Number(self.city_id)];
        proof {
            assert(scalars(r@) =~= self.spec_key());
        }
        r
    }

    fn dup(&self) -> (r: Self) {
        let r = City {
            city_id: self.city_id,
            city_name: self.city_name.clone(),
            fg_region_id: self.fg_region_id,
        };
        proof {
            assert(r.spec_values() =~= self.spec_values());
            assert(r.spec_key() =~= self.spec_key());
        }
        r
    }

    fn from_row(row: &Vec<SqlValue>) -> (r: Result<Self, Error>) {
        proof {
            assert(scalars(row@).len() == row@.len());
        }
        if row.len() == 3 {
            proof {
                assert(scalars(row@)[0] == row@[0]@);
                assert(scalars(row@)[1] == row@[1]@);
                assert(scalars(row@)[2] == row@[2]@);
            }
            match (&row[0], &row[1], &row[2]) {
                (SqlValue::Number(id), SqlValue::Text(name), SqlValue::OptNumber(fg)) => {
                    let e = City { city_id: *id, city_name: name.clone(), fg_region_id: *fg };
                    proof {
                        assert(e.spec_values() =~= scalars(row@));
                    }
                    return Ok(e);
                },
                _ => (),
            }
        }
        Err(Error::DeserializationError { table_name: <Self as SchemaTable>::table_name().to_owned() })
    }
}

/// A country, keyed by name, with optional continent and capital links.
#[derive(Debug, PartialEq)]
pub struct Country {
    pub name: String,
    pub fg_continent_name: Option<String>,
    pub fg_capital_city_id: Option<usize>,
}

impl SchemaTable for Country {
    open spec fn spec_table_name() -> Seq<char> {
        "countries"@
    }

    open spec fn spec_column_names() -> Seq<Seq<char>> {
        seq!["name"@, "fg_continent_name"@, "fg_capital_city_id"@]
    }

    open spec fn spec_key_attrs() -> Seq<Seq<char>> {
        seq!["name"@]
    }

    open spec fn spec_values(&self) -> Seq<SqlScalar> {
        seq![
            SqlScalar::Text(self.name@),
            opt_text(self.fg_continent_name),
            opt_number(self.fg_capital_city_id),
        ]
    }

    open spec fn spec_key(&self) -> Seq<SqlScalar> {
        seq![SqlScalar::Text(self.name@)]
    }

    open spec fn spec_row_ok(row: Seq<SqlScalar>) -> bool {
        row.len() == 3 && row[0] is Text && row[1] is OptText && row[2] is OptNumber
    }

    proof fn descriptor_wf() {
        assert forall|k: Seq<char>|
            Self::spec_key_attrs().contains(k) implies Self::spec_column_names().contains(k) by {
            assert(Self::spec_key_attrs()[0] == "name"@);
            assert(Self::spec_column_names()[0] == "name"@);
        };
    }

    proof fn instance_wf(&self) {
    }

    proof fn key_of_values(a: &Self, b: &Self) {
        assert(a.spec_values()[0] == b.spec_values()[0]);
        assert(a.spec_key() =~= b.spec_key());
    }

    fn table_name() -> (r: &'static str) {
        "countries"
    }

    fn column_names() -> (r: Vec<&'static str>) {
        let r = vec!["name", "fg_continent_name", "fg_capital_city_id"];
        proof {
            assert(names(r@) =~= Self::spec_column_names());
        }
        r
    }

    fn key_attrs() -> (r: Vec<&'static str>) {
        let r = vec!["name"];
        proof {
            assert(names(r@) =~= Self::spec_key_attrs());
        }
        r
    }

    fn values(&self) -> (r: Vec<SqlValue>) {
        let r = vec![
            SqlValue::Text(self.name.clone()),
            SqlValue::OptText(clone_opt_text(&self.fg_continent_name)),
            SqlValue::OptNumber(self.fg_capital_city_id),
        ];
        proof {
            assert(scalars(r@) =~= self.spec_values());
        }
        r
    }

    fn key_attr_values(&self) -> (r: Vec<SqlValue>) {
        let r = vec![SqlValue::Text(self.name.clone())];
        proof {
            assert(scalars(r@) =~= self.spec_key());
        }
        r
    }

    fn dup(&self) -> (r: Self) {
        let r = Country {
            name: self.name.clone(),
            fg_continent_name: clone_opt_text(&self.fg_continent_name),
            fg_capital_city_id: self.fg_capital_city_id,
        };
        proof {
            assert(r.spec_values() =~= self.spec_values());
            assert(r.spec_key() =~= self.spec_key());
        }
        r
    }

    fn from_row(row: &Vec<SqlValue>) -> (r: Result<Self, Error>) {
        proof {
            assert(scalars(row@).len() == row@.len());
        }
        if row.len() == 3 {
            proof {
                assert(scalars(row@)[0] == row@[0]@);
                assert(scalars(row@)[1] == row@[1]@);
                assert(scalars(row@)[2] == row@[2]@);
            }
            match (&row[0], &row[1], &row[2]) {
                (SqlValue::Text(name), SqlValue::OptText(fg_cont), SqlValue::OptNumber(fg_cap)) => {
                    let e = Country {
                        name: name.clone(),
                        fg_continent_name: clone_opt_text(fg_cont),
                        fg_capital_city_id: *fg_cap,
                    };
                    proof {
                        assert(e.spec_values() =~= scalars(row@));
                    }
                    return Ok(e);
                },
                _ => (),
            }
        }
        Err(Error::DeserializationError { table_name: <Self as SchemaTable>::table_name().to_owned() })
    }
}

/// A district, keyed by its identifier, with an optional parent city.
#[derive(Debug, PartialEq)]
pub struct District {
    pub district_id: usize,
    pub district_name: String,
    pub fg_city_id: Option<usize>,
}

impl SchemaTable for District {
    open spec fn spec_table_name() -> Seq<char> {
        "districts"@
    }

    open spec fn spec_column_names() -> Seq<Seq<char>> {
        seq!["district_id"@, "district_name"@, "fg_city_id"@]
    }

    open spec fn spec_key_attrs() -> Seq<Seq<char>> {
        seq!["district_id"@]
    }

    open spec fn spec_values(&self) -> Seq<SqlScalar> {
        seq![
            SqlScalar::Number(self.district_id as int),
            SqlScalar::Text(self.district_name@),
            opt_number(self.fg_city_id),
        ]
    }

    open spec fn spec_key(&self) -> Seq<SqlScalar> {
        seq![SqlScalar::Number(self.district_id as int)]
    }

    open spec fn spec_row_ok(row: Seq<SqlScalar>) -> bool {
        row.len() == 3 && row[0] is Number && row[1] is Text && row[2] is OptNumber
    }

    proof fn descriptor_wf() {
        assert forall|k: Seq<char>|
            Self::spec_key_attrs().contains(k) implies Self::spec_column_names().contains(k) by {
            assert(Self::spec_key_attrs()[0] == "district_id"@);
            assert(Self::spec_column_names()[0] == "district_id"@);
        };
    }

    proof fn instance_wf(&self) {
    }

    proof fn key_of_values(a: &Self, b: &Self) {
        assert(a.spec_values()[0] == b.spec_values()[0]);
        assert(a.spec_key() =~= b.spec_key());
    }

    fn table_name() -> (r: &'static str) {
        "districts"
    }

    fn column_names() -> (r: Vec<&'static str>) {
        let r = vec!["district_id", "district_name", "fg_city_id"];
        proof {
            assert(names(r@) =~= Self::spec_column_names());
        }
        r
    }

    fn key_attrs() -> (r: Vec<&'static str>) {
        let r = vec!["district_id"];
        proof {
            assert(names(r@) =~= Self::spec_key_attrs());
        }
        r
    }

    fn values(&self) -> (r: Vec<SqlValue>) {
        let r = vec![
            SqlValue::Number(self.district_id),
            SqlValue::Text(self.district_name.clone()),
            SqlValue::OptNumber(self.fg_city_id),
        ];
        proof {
            assert(scalars(r@) =~= self.spec_values());
        }
        r
    }

    fn key_attr_values(&self) -> (r: Vec<SqlValue>) {
        let r = vec![SqlValue::Number(self.district_id)];
        proof {
            assert(scalars(r@) =~= self.spec_key());
        }
        r
    }

    fn dup(&self) -> (r: Self) {
        let r = District {
            district_id: self.district_id,
            district_name: self.district_name.clone(),
            fg_city_id: self.fg_city_id,
        };
        proof {
            assert(r.spec_values() =~= self.spec_values());
            assert(r.spec_key() =~= self.spec_key());
        }
        r
    }

    fn from_row(row: &Vec<SqlValue>) -> (r: Result<Self, Error>) {
        proof {
            assert(scalars(row@).len() == row@.len());
        }
        if row.len() == 3 {
            proof {
                assert(scalars(row@)[0] == row@[0]@);
                assert(scalars(row@)[1] == row@[1]@);
                assert(scalars(row@)[2] == row@[2]@);
            }
            match (&row[0], &row[1], &row[2]) {
                (SqlValue::Number(id), SqlValue::Text(name), SqlValue::OptNumber(fg)) => {
                    let e = District {
                        district_id: *id,
                        district_name: name.clone(),
                        fg_city_id: *fg,
                    };
                    proof {
                        assert(e.spec_values() =~= scalars(row@));
                    }
                    return Ok(e);
                },
                _ => (),
            }
        }
        Err(Error::DeserializationError { table_name: <Self as SchemaTable>::table_name().to_owned() })
    }
}

/// A region, keyed by its identifier, with its descriptive columns and
/// optional country and centre-city links.
#[derive(Debug, PartialEq)]
pub struct Region {
    pub region_id: usize,
    pub region_name: String,
    pub fg_country_name: Option<String>,
    pub population: usize,
    pub area_m2: usize,
    pub climate: String,
    pub fg_centre_city_id: Option<usize>,
}

impl SchemaTable for Region {
    open spec fn spec_table_name() -> Seq<char> {
        "regions"@
    }

    open spec fn spec_column_names() -> Seq<Seq<char>> {
        seq![
            "region_id"@,
            "region_name"@,
            "fg_country_name"@,
            "population"@,
            "area_m2"@,
            "climate"@,
            "fg_centre_city_id"@,
        ]
    }

    open spec fn spec_key_attrs() -> Seq<Seq<char>> {
        seq!["region_id"@]
    }

    open spec fn spec_values(&self) -> Seq<SqlScalar> {
        seq![
            SqlScalar::Number(self.region_id as int),
            SqlScalar::Text(self.region_name@),
            opt_text(self.fg_country_name),
            SqlScalar::Number(self.population as int),
            SqlScalar::Number(self.area_m2 as int),
            SqlScalar::Text(self.climate@),
            opt_number(self.fg_centre_city_id),
        ]
    }

    open spec fn spec_key(&self) -> Seq<SqlScalar> {
        seq![SqlScalar::Number(self.region_id as int)]
    }

    open spec fn spec_row_ok(row: Seq<SqlScalar>) -> bool {
        row.len() == 7 && row[0] is Number && row[1] is Text && row[2] is OptText
            && row[3] is Number && row[4] is Number && row[5] is Text && row[6] is OptNumber
    }

    proof fn descriptor_wf() {
        assert forall|k: Seq<char>|
            Self::spec_key_attrs().contains(k) implies Self::spec_column_names().contains(k) by {
            assert(Self::spec_key_attrs()[0] == "region_id"@);
            assert(Self::spec_column_names()[0] == "region_id"@);
        };
    }

    proof fn instance_wf(&self) {
    }

    proof fn key_of_values(a: &Self, b: &Self) {
        assert(a.spec_values()[0] == b.spec_values()[0]);
        assert(a.spec_key() =~= b.spec_key());
    }

    fn table_name() -> (r: &'static str) {
        "regions"
    }

    fn column_names() -> (r: Vec<&'static str>) {
        let r = vec![
            "region_id",
            "region_name",
            "fg_country_name",
            "population",
            "area_m2",
            "climate",
            "fg_centre_city_id",
        ];
        proof {
            assert(names(r@) =~= Self::spec_column_names());
        }
        r
    }

    fn key_attrs() -> (r: Vec<&'static str>) {
        let r = vec!["region_id"];
        proof {
            assert(names(r@) =~= Self::spec_key_attrs());
        }
        r
    }

    fn values(&self) -> (r: Vec<SqlValue>) {
        let r = vec![
            SqlValue::Number(self.region_id),
            SqlValue::Text(self.region_name.clone()),
            SqlValue::OptText(clone_opt_text(&self.fg_country_name)),
            SqlValue::Number(self.population),
            SqlValue::Number(self.area_m2),
            SqlValue::Text(self.climate.clone()),
            SqlValue::OptNumber(self.fg_centre_city_id),
        ];
        proof {
            assert(scalars(r@) =~= self.spec_values());
        }
        r
    }

    fn key_attr_values(&self) -> (r: Vec<SqlValue>) {
        let r = vec![SqlValue::Number(self.region_id)];
        proof {
            assert(scalars(r@) =~= self.spec_key());
        }
        r
    }

    fn dup(&self) -> (r: Self) {
        let r = Region {
            region_id: self.region_id,
            region_name: self.region_name.clone(),
            fg_country_name: clone_opt_text(&self.fg_country_name),
            population: self.population,
            area_m2: self.area_m2,
            climate: self.climate.clone(),
            fg_centre_city_id: self.fg_centre_city_id,
        };
        proof {
            assert(r.spec_values() =~= self.spec_values());
            assert(r.spec_key() =~= self.spec_key());
        }
        r
    }

    fn from_row(row: &Vec<SqlValue>) -> (r: Result<Self, Error>) {
        proof {
            assert(scalars(row@).len() == row@.len());
        }
        if row.len() == 7 {
            proof {
                assert(scalars(row@)[0] == row@[0]@);
                assert(scalars(row@)[1] == row@[1]@);
                assert(scalars(row@)[2] == row@[2]@);
                assert(scalars(row@)[3] == row@[3]@);
                assert(scalars(row@)[4] == row@[4]@);
                assert(scalars(row@)[5] == row@[5]@);
                assert(scalars(row@)[6] == row@[6]@);
            }
            match (&row[0], &row[1], &row[2], &row[3], &row[4], &row[5], &row[6]) {
                (
                    SqlValue::Number(id),
                    SqlValue::Text(name),
                    SqlValue::OptText(fg_country),
                    SqlValue::Number(population),
                    SqlValue::Number(area),
                    SqlValue::Text(climate),
                    SqlValue::OptNumber(fg_centre),
                ) => {
                    let e = Region {
                        region_id: *id,
                        region_name: name.clone(),
                        fg_country_name: clone_opt_text(fg_country),
                        population: *population,
                        area_m2: *area,
                        climate: climate.clone(),
                        fg_centre_city_id: *fg_centre,
                    };
                    proof {
                        assert(e.spec_values() =~= scalars(row@));
                    }
                    return Ok(e);
                },
                _ => (),
            }
        }
        Err(Error::DeserializationError { table_name: <Self as SchemaTable>::table_name().to_owned() })
    }
}

/// One user of the panel, keyed by username.  The stored credential is
/// compared as plain text by the original design — a known defect of the
/// dataset, not a feature — and the `last_appearance` column carries the
/// whole server side of the sliding session window, as seconds relative
/// to the epoch.
#[derive(Debug, PartialEq)]
pub struct UserInfo {
    pub username: String,
    pub password: String,
    pub is_admin: String,
    pub last_appearance: i64,
}

impl SchemaTable for UserInfo {
    open spec fn spec_table_name() -> Seq<char> {
        "users_info"@
    }

    open spec fn spec_column_names() -> Seq<Seq<char>> {
        seq!["username"@, "password"@, "is_admin"@, "last_appearance"@]
    }

    open spec fn spec_key_attrs() -> Seq<Seq<char>> {
        seq!["username"@]
    }

    open spec fn spec_values(&self) -> Seq<SqlScalar> {
        seq![
            SqlScalar::Text(self.username@),
            SqlScalar::Text(self.password@),
            SqlScalar::Text(self.is_admin@),
            SqlScalar::Stamp(self.last_appearance as int),
        ]
    }

    open spec fn spec_key(&self) -> Seq<SqlScalar> {
        seq![SqlScalar::Text(self.username@)]
    }

    open spec fn spec_row_ok(row: Seq<SqlScalar>) -> bool {
        row.len() == 4 && row[0] is Text && row[1] is Text && row[2] is Text && row[3] is Stamp
    }

    proof fn descriptor_wf() {
        assert forall|k: Seq<char>|
            Self::spec_key_attrs().contains(k) implies Self::spec_column_names().contains(k) by {
            assert(Self::spec_key_attrs()[0] == "username"@);
            assert(Self::spec_column_names()[0] == "username"@);
        };
    }

    proof fn instance_wf(&self) {
    }

    proof fn key_of_values(a: &Self, b: &Self) {
        assert(a.spec_values()[0] == b.spec_values()[0]);
        assert(a.spec_key() =~= b.spec_key());
    }

    fn table_name() -> (r: &'static str) {
        "users_info"
    }

    fn column_names() -> (r: Vec<&'static str>) {
        let r = vec!["username", "password", "is_admin", "last_appearance"];
        proof {
            assert(names(r@) =~= Self::spec_column_names());
        }
        r
    }

    fn key_attrs() -> (r: Vec<&'static str>) {
        let r = vec!["username"];
        proof {
            assert(names(r@) =~= Self::spec_key_attrs());
        }
        r
    }

    fn values(&self) -> (r: Vec<SqlValue>) {
        let r = vec![
            SqlValue::Text(self.username.clone()),
            SqlValue::Text(self.password.clone()),
            SqlValue::Text(self.is_admin.clone()),
            SqlValue::Stamp(self.last_appearance),
        ];
        proof {
            assert(scalars(r@) =~= self.spec_values());
        }
        r
    }

    fn key_attr_values(&self) -> (r: Vec<SqlValue>) {
        let r = vec![SqlValue::Text(self.username.clone())];
        proof {
            assert(scalars(r@) =~= self.spec_key());
        }
        r
    }

    fn dup(&self) -> (r: Self) {
        let r = UserInfo {
            username: self.username.clone(),
            password: self.password.clone(),
            is_admin: self.is_admin.clone(),
            last_appearance: self.last_appearance,
        };
        proof {
            assert(r.spec_values() =~= self.spec_values());
            assert(r.spec_key() =~= self.spec_key());
        }
        r
    }

    fn from_row(row: &Vec<SqlValue>) -> (r: Result<Self, Error>) {
        proof {
            assert(scalars(row@).len() == row@.len());
        }
        if row.len() == 4 {
            proof {
                assert(scalars(row@)[0] == row@[0]@);
                assert(scalars(row@)[1] == row@[1]@);
                assert(scalars(row@)[2] == row@[2]@);
                assert(scalars(row@)[3] == row@[3]@);
            }
            match (&row[0], &row[1], &row[2], &row[3]) {
                (
                    SqlValue::Text(username),
                    SqlValue::Text(password),
                    SqlValue::Text(is_admin),
                    SqlValue::Stamp(last_appearance),
                ) => {
                    let e = UserInfo {
                        username: username.clone(),
                        password: password.clone(),
                        is_admin: is_admin.clone(),
                        last_appearance: *last_appearance,
                    };
                    proof {
                        assert(e.spec_values() =~= scalars(row@));
                    }
                    return Ok(e);
                },
                _ => (),
            }
        }
        Err(Error::DeserializationError { table_name: <Self as SchemaTable>::table_name().to_owned() })
    }
}

} // verus!
