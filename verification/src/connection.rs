use vstd::prelude::*;

use crate::error::AppError;
use crate::store::{db, in_tx, install_schema, open_conn, open_in_memory_conn, schema_ok};

verus! {

/// Opens (creating if absent) the store file at `path` and switches on
/// foreign-key enforcement together with the schema.
pub fn establish_connection(path: &str) -> (r: Result<rusqlite::Connection, AppError>)
    ensures
        r matches Ok(c) ==> schema_ok(c) && !in_tx(c),
        r matches Err(e) ==> e is DbError,
{
    let mut conn = open_conn(path)?;
    init_db(&mut conn)?;
    Ok(conn)
}

/// Creates the three tables and their indexes if they are not already
/// present, and enables referential-integrity enforcement. Idempotent:
/// safe to run on every startup against a populated store.
pub fn init_db(conn: &mut rusqlite::Connection) -> (r: Result<(), AppError>)
    requires
        !in_tx(*old(conn)),
    ensures
        !in_tx(*final(conn)),
        db(*final(conn)) == db(*old(conn)),
        r is Ok ==> schema_ok(*final(conn)),
        r matches Err(e) ==> e is DbError,
{
    install_schema(conn)
}

/// Opens a fresh, empty in-memory store with the schema installed; the
/// repositories behave on it exactly as on a file-backed store.
pub fn open_memory_store() -> (r: Result<rusqlite::Connection, AppError>)
    ensures
        r matches Ok(c) ==> schema_ok(c) && !in_tx(c) && db(c).is_empty(),
        r matches Err(e) ==> e is DbError,
{
    let mut conn = open_in_memory_conn()?;
    init_db(&mut conn)?;
    Ok(conn)
}

} // verus!
