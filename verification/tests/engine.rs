//! Behavioral tests of the CRUD engine against the store model.

use geopanel::database_operations::{
    count_rows, delete_data, get_user, insert_data, load_data, update_data, DbTable, SchemaTable,
};
use geopanel::error::Error;
use geopanel::read_insert_update_delete::{read_data, Database, ItemsPage, Table, TableRows};
use geopanel::schema::{City, Continent, Country, District, Region, UserInfo};
use geopanel::sql::{count_sql, delete_sql, exists_sql, insert_sql, load_sql, update_sql};
use geopanel::values::SqlValue;

fn continent(name: &str, area_m2: usize) -> Continent {
    Continent {
        name: name.to_string(),
        area_m2,
    }
}

#[test]
fn count_of_empty_table_is_zero() {
    let table: DbTable<Continent> = DbTable::new();
    assert_eq!(count_rows(&table).unwrap(), 0);
}

#[test]
fn concrete_scenario_insert_load_count() {
    // Insert Asia; load(1,1) ordered by name returns exactly that record
    // (it sorts first in a one-row table); count grows by exactly one.
    let mut table: DbTable<Continent> = DbTable::new();
    let before = count_rows(&table).unwrap();
    insert_data(&mut table, &continent("Asia", 44_579_000)).unwrap();
    let after = count_rows(&table).unwrap();
    assert_eq!(after, before + 1);
    let page = load_data(&table, 1, 1).unwrap();
    assert_eq!(page.len(), 1);
    assert_eq!(page[0], continent("Asia", 44_579_000));
}

#[test]
fn load_returns_rows_in_ascending_name_order() {
    let mut table: DbTable<Continent> = DbTable::new();
    insert_data(&mut table, &continent("Europe", 10_180_000)).unwrap();
    insert_data(&mut table, &continent("Africa", 30_370_000)).unwrap();
    insert_data(&mut table, &continent("Asia", 44_579_000)).unwrap();
    let rows = load_data(&table, 1, 3).unwrap();
    let names: Vec<&str> = rows.iter().map(|c| c.name.as_str()).collect();
    assert_eq!(names, vec!["Africa", "Asia", "Europe"]);
}

#[test]
fn pagination_covers_each_row_exactly_once() {
    // Five rows, page size two: pages 1..=3 hold every row exactly once,
    // in ascending primary-key order.
    let mut table: DbTable<City> = DbTable::new();
    for id in [5usize, 3, 1, 4, 2] {
        let city = City {
            city_id: id,
            city_name: format!("city-{id}"),
            fg_region_id: None,
        };
        insert_data(&mut table, &city).unwrap();
    }
    let mut seen: Vec<usize> = Vec::new();
    for page in 1usize..=3 {
        let lower = (page - 1) * 2 + 1;
        let upper = page * 2;
        let rows = load_data(&table, lower, upper).unwrap();
        seen.extend(rows.iter().map(|c| c.city_id));
    }
    assert_eq!(seen, vec![1, 2, 3, 4, 5]);
}

#[test]
fn load_window_beyond_the_table_is_empty() {
    let mut table: DbTable<Continent> = DbTable::new();
    insert_data(&mut table, &continent("Asia", 44_579_000)).unwrap();
    assert!(load_data(&table, 2, 5).unwrap().is_empty());
    assert!(load_data(&table, 3, 2).unwrap().is_empty());
}

#[test]
fn insert_round_trip_preserves_every_column() {
    let mut table: DbTable<Region> = DbTable::new();
    let region = Region {
        region_id: 7,
        region_name: "Westland".to_string(),
        fg_country_name: Some("Utopia".to_string()),
        population: 125_000,
        area_m2: 9_500_000,
        climate: "temperate".to_string(),
        fg_centre_city_id: None,
    };
    insert_data(&mut table, &region).unwrap();
    let rows = load_data(&table, 1, 1).unwrap();
    assert_eq!(rows[0], region);
}

#[test]
fn insert_duplicate_key_is_a_constraint_violation() {
    let mut table: DbTable<Continent> = DbTable::new();
    insert_data(&mut table, &continent("Asia", 44_579_000)).unwrap();
    let err = insert_data(&mut table, &continent("Asia", 1)).unwrap_err();
    assert!(matches!(err, Error::ConstraintViolation { ref table_name } if table_name == "continents"));
    assert_eq!(count_rows(&table).unwrap(), 1);
}

#[test]
fn delete_is_idempotent_and_removes_the_row() {
    let mut table: DbTable<Continent> = DbTable::new();
    insert_data(&mut table, &continent("Asia", 44_579_000)).unwrap();
    delete_data(&mut table, &continent("Asia", 0)).unwrap();
    // deleting the already-absent key is a no-op success
    delete_data(&mut table, &continent("Asia", 0)).unwrap();
    assert_eq!(count_rows(&table).unwrap(), 0);
    assert!(load_data(&table, 1, 10).unwrap().is_empty());
}

#[test]
fn delete_matches_on_the_key_alone() {
    let mut table: DbTable<Continent> = DbTable::new();
    insert_data(&mut table, &continent("Asia", 44_579_000)).unwrap();
    insert_data(&mut table, &continent("Africa", 30_370_000)).unwrap();
    // non-key columns of the probe are ignored
    delete_data(&mut table, &continent("Asia", 123)).unwrap();
    let rows = load_data(&table, 1, 10).unwrap();
    assert_eq!(rows.len(), 1);
    assert_eq!(rows[0].name, "Africa");
}

#[test]
fn update_of_a_vanished_key_fails_key_not_found_and_changes_nothing() {
    // The optimistic guard: the keyed row is deleted before the update
    // lands, so the update fails and the store is unchanged.
    let mut table: DbTable<Continent> = DbTable::new();
    let asia = continent("Asia", 44_579_000);
    insert_data(&mut table, &asia).unwrap();
    insert_data(&mut table, &continent("Africa", 30_370_000)).unwrap();
    delete_data(&mut table, &asia).unwrap();
    let err = update_data(&mut table, &asia, &continent("Asia", 1)).unwrap_err();
    assert!(matches!(err, Error::KeyNotFound { ref table_name } if table_name == "continents"));
    let rows = load_data(&table, 1, 10).unwrap();
    assert_eq!(rows, vec![continent("Africa", 30_370_000)]);
}

#[test]
fn update_replaces_every_column() {
    let mut table: DbTable<Continent> = DbTable::new();
    let old = continent("Asia", 1);
    insert_data(&mut table, &old).unwrap();
    update_data(&mut table, &old, &continent("Asia", 44_579_000)).unwrap();
    let rows = load_data(&table, 1, 10).unwrap();
    assert_eq!(rows, vec![continent("Asia", 44_579_000)]);
}

#[test]
fn update_may_change_the_key_and_reranks_the_row() {
    let mut table: DbTable<Continent> = DbTable::new();
    let old = continent("Zealandia", 4_900_000);
    insert_data(&mut table, &old).unwrap();
    insert_data(&mut table, &continent("Europe", 10_180_000)).unwrap();
    update_data(&mut table, &old, &continent("Africa", 30_370_000)).unwrap();
    let rows = load_data(&table, 1, 10).unwrap();
    let names: Vec<&str> = rows.iter().map(|c| c.name.as_str()).collect();
    assert_eq!(names, vec!["Africa", "Europe"]);
}

#[test]
fn update_to_a_key_held_by_another_row_is_a_constraint_violation() {
    let mut table: DbTable<Continent> = DbTable::new();
    let asia = continent("Asia", 44_579_000);
    insert_data(&mut table, &asia).unwrap();
    insert_data(&mut table, &continent("Africa", 30_370_000)).unwrap();
    let err = update_data(&mut table, &asia, &continent("Africa", 1)).unwrap_err();
    assert!(matches!(err, Error::ConstraintViolation { .. }));
    assert_eq!(count_rows(&table).unwrap(), 2);
}

#[test]
fn get_user_finds_exactly_the_keyed_record() {
    let mut table: DbTable<UserInfo> = DbTable::new();
    let bob = UserInfo {
        username: "bob".to_string(),
        password: "correct-horse".to_string(),
        is_admin: "n".to_string(),
        last_appearance: 17,
    };
    insert_data(&mut table, &bob).unwrap();
    let probe = UserInfo {
        username: "bob".to_string(),
        password: String::new(),
        is_admin: String::new(),
        last_appearance: 0,
    };
    assert_eq!(get_user(&table, &probe).unwrap(), Some(bob));
    let absent = UserInfo {
        username: "alice".to_string(),
        ..probe
    };
    assert_eq!(get_user(&table, &absent).unwrap(), None);
}

#[test]
fn from_row_deserializes_every_declared_column() {
    let row = vec![
        SqlValue::Text("Asia".to_string()),
        SqlValue::Number(44_579_000),
    ];
    assert_eq!(
        Continent::from_row(&row).unwrap(),
        continent("Asia", 44_579_000)
    );
}

#[test]
fn from_row_rejects_missing_and_mistyped_columns() {
    let short = vec![SqlValue::Text("Asia".to_string())];
    assert!(matches!(
        Continent::from_row(&short),
        Err(Error::DeserializationError { .. })
    ));
    let mistyped = vec![
        SqlValue::Number(1),
        SqlValue::Number(44_579_000),
    ];
    assert!(matches!(
        Continent::from_row(&mistyped),
        Err(Error::DeserializationError { .. })
    ));
    let city_row = vec![
        SqlValue::Number(4),
        SqlValue::Text("Springfield".to_string()),
        SqlValue::OptNumber(Some(2)),
    ];
    let city = City::from_row(&city_row).unwrap();
    assert_eq!(city.city_id, 4);
    assert_eq!(city.city_name, "Springfield");
    assert_eq!(city.fg_region_id, Some(2));
    assert!(matches!(
        District::from_row(&city_row[..2].to_vec()),
        Err(Error::DeserializationError { .. })
    ));
}

#[test]
fn descriptor_metadata_matches_the_schema() {
    assert_eq!(<Continent as SchemaTable>::table_name(), "continents");
    assert_eq!(
        Continent::column_names(),
        vec!["name", "area_m2"]
    );
    assert_eq!(Continent::key_attrs(), vec!["name"]);
    assert_eq!(<Country as SchemaTable>::table_name(), "countries");
    assert_eq!(<Region as SchemaTable>::table_name(), "regions");
    assert_eq!(
        Region::column_names().len(),
        Region::key_attrs().len() + 6
    );
    let c = continent("Asia", 44_579_000);
    assert_eq!(
        c.values(),
        vec![
            SqlValue::Text("Asia".to_string()),
            SqlValue::Number(44_579_000)
        ]
    );
    assert_eq!(
        c.key_attr_values(),
        vec![SqlValue::Text("Asia".to_string())]
    );
}

#[test]
fn table_parse_takes_the_segment_before_the_first_dot() {
    assert!(matches!(
        Table::parse("continents.tera".to_string()),
        Ok(Table::Continents)
    ));
    assert!(matches!(
        Table::parse("cities".to_string()),
        Ok(Table::Cities)
    ));
    assert!(matches!(
        Table::parse("countries.tera".to_string()),
        Ok(Table::Countries)
    ));
    assert!(matches!(
        Table::parse("districts.x.y".to_string()),
        Ok(Table::Districts)
    ));
    assert!(matches!(
        Table::parse("regions.tera".to_string()),
        Ok(Table::Regions)
    ));
    let err = Table::parse("moons.tera".to_string()).unwrap_err();
    assert!(matches!(err, Error::UnknownTable { ref table } if table == "moons.tera"));
}

#[test]
fn read_data_pages_a_table_and_reports_its_count() {
    let mut db = Database::new();
    insert_data(&mut db.continents, &continent("Europe", 10_180_000)).unwrap();
    insert_data(&mut db.continents, &continent("Africa", 30_370_000)).unwrap();
    insert_data(&mut db.continents, &continent("Asia", 44_579_000)).unwrap();
    let ItemsPage { items_count, rows } =
        read_data(&db, "continents.tera".to_string(), 2, 2).unwrap();
    assert_eq!(items_count, 3);
    match rows {
        TableRows::Continents(v) => {
            assert_eq!(v.len(), 1);
            assert_eq!(v[0].name, "Europe");
        }
        _ => panic!("page of the wrong table"),
    }
}

#[test]
fn read_data_rejects_bad_pagination_before_the_table_name() {
    let db = Database::new();
    assert!(matches!(
        read_data(&db, "continents.tera".to_string(), 0, 10),
        Err(Error::InvalidArgument)
    ));
    assert!(matches!(
        read_data(&db, "moons.tera".to_string(), 1, 0),
        Err(Error::InvalidArgument)
    ));
    assert!(matches!(
        read_data(&db, "moons.tera".to_string(), 1, 10),
        Err(Error::UnknownTable { .. })
    ));
}

#[test]
fn every_error_carries_its_status_class() {
    assert_eq!(
        Error::ConstraintViolation {
            table_name: "continents".to_string()
        }
        .http_status(),
        278
    );
    assert_eq!(
        Error::KeyNotFound {
            table_name: "cities".to_string()
        }
        .http_status(),
        400
    );
    assert_eq!(
        Error::UnknownTable {
            table: "moons".to_string()
        }
        .http_status(),
        400
    );
    assert_eq!(
        Error::DeserializationError {
            table_name: "regions".to_string()
        }
        .http_status(),
        400
    );
    assert_eq!(Error::InvalidArgument.http_status(), 400);
    assert_eq!(Error::Unauthorized.http_status(), 401);
    assert_eq!(Error::ConnectionError.http_status(), 500);
    assert_eq!(Error::PoolExhausted.http_status(), 500);
    assert_eq!(
        Error::QueryFailed {
            message: "ORA-00942".to_string()
        }
        .http_status(),
        500
    );
}

#[test]
fn generated_statements_bind_positionally_in_column_order() {
    assert_eq!(insert_sql::<Continent>(), "insert into continents values (:1,:2)");
    assert_eq!(count_sql::<Continent>(), "select count(*) from continents");
    assert_eq!(
        load_sql::<Continent>(),
        "select name,area_m2 from (select c.*,rownum r from (select * from continents \
         order by name) c) where r between :1 and :2"
    );
    assert_eq!(delete_sql::<City>(), "delete from cities where city_id=:1");
    assert_eq!(
        update_sql::<Continent>(),
        "update continents set name=:1,area_m2=:2 where name=:3"
    );
    assert_eq!(
        exists_sql::<UserInfo>(),
        "select username from users_info where username=:1"
    );
    assert_eq!(
        update_sql::<Region>(),
        "update regions set region_id=:1,region_name=:2,fg_country_name=:3,population=:4,\
         area_m2=:5,climate=:6,fg_centre_city_id=:7 where region_id=:8"
    );
    assert_eq!(
        insert_sql::<Country>(),
        "insert into countries values (:1,:2,:3)"
    );
    assert_eq!(
        load_sql::<District>(),
        "select district_id,district_name,fg_city_id from (select c.*,rownum r from \
         (select * from districts order by district_id) c) where r between :1 and :2"
    );
}

#[test]
fn mixed_entities_keep_their_own_tables() {
    let mut db = Database::new();
    insert_data(
        &mut db.countries,
        &Country {
            name: "Utopia".to_string(),
            fg_continent_name: Some("Asia".to_string()),
            fg_capital_city_id: None,
        },
    )
    .unwrap();
    insert_data(
        &mut db.districts,
        &District {
            district_id: 1,
            district_name: "Old Town".to_string(),
            fg_city_id: Some(4),
        },
    )
    .unwrap();
    assert_eq!(count_rows(&db.countries).unwrap(), 1);
    assert_eq!(count_rows(&db.districts).unwrap(), 1);
    assert_eq!(count_rows(&db.continents).unwrap(), 0);
}
