//! Verified core of an administrative panel over a relational geography
//! dataset (continents, countries, regions, districts, cities) together with
//! a user/session store.
//!
//! The crate contains the two components with real design content:
//!
//! * a generic, reflection-free data-access engine that maps typed entities
//!   to CRUD operations through the [`database_operations::SchemaTable`]
//!   capability, including pagination and optimistic key-based updates, and
//! * a cookie-backed authentication component with a sliding five-minute
//!   session window and a two-tier (user / admin) authorization model.
//!
//! The engine is specified and verified against a reference store model
//! ([`database_operations::DbTable`]): an ordered table of rows with unique
//! primary keys, which gives every operation the semantics that the backing
//! SQL store is contracted to provide per statement.  The statements
//! themselves are generated in [`sql`], proved to draw every identifier
//! from a compiled descriptor and to bind every value positionally.  HTTP
//! route wiring, template rendering and the database wire protocol are
//! thin glue around this core and live outside the library.

pub mod auth;
pub mod database_operations;
pub mod database_oracle;
pub mod error;
pub mod read_insert_update_delete;
pub mod schema;
pub mod sql;
pub mod values;

pub use error::Error;
