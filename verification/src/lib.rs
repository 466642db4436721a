//! Core of a transactional, schema-aware datom store connector.
//!
//! The crate holds the in-memory metadata manager and the transaction
//! lifecycle that sit on top of a relational backing store: the partition
//! map from which entity ids are allocated, the schema snapshot with its
//! bidirectional ident/entid lookups, the attribute-value cache, and the
//! connection object whose commit protocol advances a generation counter
//! exactly once per successful commit.
//!
//! The backing store itself, the datalog query engine and the transactor
//! are external collaborators: their results enter the library as plain
//! values, and every decision the library makes about them is verified.

pub mod cache;
pub mod conn;
pub mod errors;
pub mod partition;
pub mod schema;
pub mod types;
