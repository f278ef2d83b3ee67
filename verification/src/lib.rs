//! Schema-driven mapping layer for a document store.
//!
//! A record type is described by an explicit, declarative [`schema::Schema`]
//! built once per entity. Generic engines consume that schema: a validation
//! engine that gates every save, a builder that constructs records from
//! declared defaults, an index compiler that turns per-field index
//! declarations into store index requests, and a CRUD translator that maps
//! typed filters and updates onto collection operations and store results
//! back into typed records.

pub mod context;
pub mod document;
pub mod errors;
pub mod filter;
pub mod index;
pub mod record;
pub mod schema;
pub mod store;
pub mod strings;
pub mod validate;
pub mod value;
