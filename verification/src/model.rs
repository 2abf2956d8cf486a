//! The data-access error taxonomy and the shared fetch-one translation.
use vstd::prelude::*;

use crate::todo::Todo;

verus! {

/// Failure inside the record store itself.
#[derive(Clone, Copy, Debug, PartialEq, Eq, Structural)]
pub enum StoreError {
    /// A single-row statement matched no row.
    RowNotFound,
    /// A malformed statement: an unknown column or a type mismatch.
    InvalidStatement,
}

/// Failure of a data-access operation.
#[derive(Debug)]
pub enum Error {
    /// A single-row lookup, update or delete targeted a row that does not
    /// exist; carries the entity type name and the stringified id.
    EntityNotFound(String, String),
    /// Any other store failure, propagated unchanged.
    Store(StoreError),
}

/// The shared fetch-one translation: a zero-row outcome becomes the
/// domain not-found error carrying the entity type name and the
/// stringified id; any other store failure is passed through unchanged.
pub fn handle_fetch_one_result(result: Result<Todo, StoreError>, typ: &str, id: String) -> (r:
    Result<Todo, Error>)
    ensures
        match result {
            Ok(t) => r matches Ok(rt) && rt == t,
            Err(StoreError::RowNotFound) => r matches Err(Error::EntityNotFound(ty, i)) && ty@
                == typ@ && i@ == id@,
            Err(e) => r matches Err(Error::Store(e2)) && e2 == e,
        },
{
    match result {
        Ok(t) => Ok(t),
        Err(StoreError::RowNotFound) => Err(Error::EntityNotFound(typ.to_owned(), id)),
        Err(e) => Err(Error::Store(e)),
    }
}

} // verus!
