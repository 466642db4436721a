//! The error surface of the library.

use vstd::prelude::*;
use crate::types::Entid;

verus! {

/// A rejection reported by the external transactor.
#[derive(Debug, PartialEq, Eq)]
pub enum DbErrorKind {
    /// An entid appeared in transaction data without being known to the store.
    UnrecognizedEntid(Entid),
    /// A path the transactor does not implement, such as a conflicting upsert.
    NotYetImplemented(String),
    /// An assertion violated an attribute's cardinality.
    CardinalityConflict(String),
}

/// An error surfaced by the backing store.
#[derive(Clone, Copy, PartialEq, Eq, Structural, Debug)]
pub enum BackingError {
    /// An immediate transaction could not be acquired because a competing
    /// writer holds the store.
    Busy,
    /// Any other backing-store failure.
    Other,
}

/// Everything a connection or transaction operation can fail with.
#[derive(Debug, PartialEq, Eq)]
pub enum Error {
    /// Failure initializing or upgrading the backing store.
    Bootstrap,
    /// Transaction text was not well-formed EDN.
    EdnParse,
    /// The EDN was well formed but did not have the shape of a transaction.
    TxParse,
    /// The transactor rejected the transaction data.
    DbError(DbErrorKind),
    /// A cache operation referenced an ident with no schema entry; the
    /// payload is the rendered keyword.
    UnknownAttribute(String),
    /// A deregistration referenced an attribute that is not in the cache.
    NotCached,
    /// The metadata generation moved between transaction begin and commit.
    Race,
    /// A passthrough backing-store error.
    Backing(BackingError),
}

} // verus!
