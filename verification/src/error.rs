//! The store's failure taxonomy: engine failures are wrapped into
//! one kind and propagated unchanged; an unsupported on-disk schema
//! version is its own, fatal kind. Absent results ("no current
//! category") are values, never errors.

use vstd::prelude::*;

verus! {

#[verifier::external_type_specification]
#[verifier::external_body]
pub struct ExSqliteError(rusqlite::Error);

/// A failure reported by the persistence layer.
#[derive(Debug)]
pub enum DatabaseError {
    /// The database was written by a newer release: its stored
    /// schema version exceeds this build's target. Fatal at startup;
    /// no downgrade path exists.
    VersionNotSupported(i64),
    /// Any failure of the embedded storage engine, propagated
    /// unchanged.
    RusqliteError(rusqlite::Error),
}

impl From<rusqlite::Error> for DatabaseError {
    fn from(err: rusqlite::Error) -> (r: DatabaseError) {
        DatabaseError::RusqliteError(err)
    }
}

impl vstd::std_specs::convert::FromSpecImpl<rusqlite::Error> for DatabaseError {
    open spec fn obeys_from_spec() -> bool {
        true
    }

    open spec fn from_spec(err: rusqlite::Error) -> DatabaseError {
        DatabaseError::RusqliteError(err)
    }
}

} // verus!
