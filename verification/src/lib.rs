//! The schema of an identity server: the rules that an entry must comply with
//! before it is committed to the database.
//!
//! [`SchemaAttribute`]s say how the values that go by one name are structured.
//! [`SchemaClass`]es say which attributes an entry must and may have. An entry
//! has at least one class, and classes are additive. A [`Schema`] holds the
//! classes and attributes that are in force, and is read and changed in
//! transactions.
pub mod attribute;
pub mod bootstrap;
pub mod class;
pub mod compliance;
pub mod consistency;
pub mod definition;
pub mod entry;
pub mod error;
pub mod filter;
pub mod foreign;
pub mod laws;
pub mod laws_of_compliance;
pub mod laws_of_core;
pub mod laws_of_definitions;
pub mod laws_of_filters;
pub mod laws_of_schema;
pub mod laws_of_values;
pub mod order;
pub mod schema;
pub mod state;
pub mod tables;
pub mod text;
pub mod value;

pub use attribute::SchemaAttribute;
pub use bootstrap::SchemaUuids;
pub use class::SchemaClass;
pub use entry::{Entry, SealedEntry};
pub use error::{ConsistencyError, OperationError, SchemaError};
pub use filter::Filter;
pub use schema::{Schema, SchemaReadTransaction, SchemaTransaction, SchemaWriteTransaction};
pub use tables::IdxKey;
pub use value::{IndexType, PartialValue, SyntaxType, Value, ValueSet};
