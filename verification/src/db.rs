//! Trusted boundary to the SQLite store: the connection type, the error
//! taxonomy, and one wrapper per SQL statement the sync protocol issues.
//! Each wrapper's effect lives in the store, so nothing is claimed of it
//! beyond its doc comment; the reconciliation logic around the wrappers is
//! verified in `sync`.

use vstd::prelude::*;

use crate::sync::TodoRow;

verus! {

/// Why a push or pull failed.
#[derive(Clone, Copy, Debug, PartialEq, Eq, Structural)]
pub enum SyncError {
    /// The identity (or other required row) is absent from the store.
    NotFound,
    /// The store could not be reached or the statement failed outright.
    ConnectionError,
    /// The store rejected the statement over a constraint.
    ConstraintError,
}

#[verifier::external_type_specification]
#[verifier::external_body]
pub struct ExConnection(rusqlite::Connection);

#[verifier::external_type_specification]
#[verifier::external_body]
pub struct ExRusqliteError(rusqlite::Error);

/// Relies on rusqlite's `Error` variants: a query that returned no rows maps
/// to `NotFound`, a SQLite constraint violation to `ConstraintError`, and
/// everything else to `ConnectionError`.
#[verifier::external_body]
pub(crate) fn sync_error_of(e: rusqlite::Error) -> (r: SyncError) {
    match e {
        rusqlite::Error::QueryReturnedNoRows => SyncError::NotFound,
        rusqlite::Error::SqliteFailure(f, _) if f.code
            == rusqlite::ErrorCode::ConstraintViolation => SyncError::ConstraintError,
        _ => SyncError::ConnectionError,
    }
}

/// Relies on `rusqlite::Connection::execute`: inserts the identity row
/// unless one with this `user_name` already exists (the email of an existing
/// row is left alone); `Err` when the statement fails.
#[verifier::external_body]
pub(crate) fn insert_user(
    conn: &rusqlite::Connection,
    user_name: &String,
    email: &String,
) -> (r: Result<(), rusqlite::Error>) {
    conn.execute(
        "INSERT OR IGNORE INTO users (user_name, email) VALUES (?1, ?2)",
        (user_name, email),
    ).map(|_| ())
}

/// Relies on `rusqlite::Connection::query_row`: the persisted numeric id of
/// this `user_name`; `Err(QueryReturnedNoRows)` when the identity row is
/// absent.
#[verifier::external_body]
pub(crate) fn user_id(conn: &rusqlite::Connection, user_name: &String) -> (r: Result<
    i64,
    rusqlite::Error,
>) {
    conn.query_row("SELECT id FROM users WHERE user_name = ?1", (user_name,), |row| row.get(0))
}

/// Relies on `rusqlite::Connection::query_row`: the persisted id and email
/// of this `user_name`; `Err(QueryReturnedNoRows)` when the identity row is
/// absent.
#[verifier::external_body]
pub(crate) fn user_row(conn: &rusqlite::Connection, user_name: &str) -> (r: Result<
    (i64, String),
    rusqlite::Error,
>) {
    conn.query_row(
        "SELECT id, email FROM users WHERE user_name = ?1",
        (user_name,),
        |row| Ok((row.get(0)?, row.get(1)?)),
    )
}

/// Relies on `rusqlite::Connection::execute`: deletes the todo row keyed by
/// user id, list name and item number; affecting no row is not an error.
#[verifier::external_body]
pub(crate) fn delete_todo(
    conn: &rusqlite::Connection,
    user_id: i64,
    list_name: &String,
    item_number: usize,
) -> (r: Result<(), rusqlite::Error>) {
    conn.execute(
        "DELETE FROM todos WHERE user_id = ?1 AND list_name = ?2 AND item_number = ?3",
        (user_id, list_name, item_number),
    ).map(|_| ())
}

/// Relies on `rusqlite::Connection::execute`: overwrites title, datetime and
/// completion flag of the todo row keyed by user id, list name and item
/// number; affecting no row is not an error.
#[verifier::external_body]
pub(crate) fn update_todo(
    conn: &rusqlite::Connection,
    user_id: i64,
    row: &TodoRow,
) -> (r: Result<(), rusqlite::Error>) {
    conn.execute(
        "UPDATE todos SET title = ?1, datetime = ?2, is_completed = ?3 WHERE user_id = ?4 AND list_name = ?5 AND item_number = ?6",
        (&row.title, &row.datetime, row.is_completed, user_id, &row.list_name, row.item_number),
    ).map(|_| ())
}

/// Relies on `rusqlite::Connection::execute`: inserts the todo row under the
/// user id, silently keeping an existing row with the same primary key.
#[verifier::external_body]
pub(crate) fn insert_todo(
    conn: &rusqlite::Connection,
    user_id: i64,
    row: &TodoRow,
) -> (r: Result<(), rusqlite::Error>) {
    conn.execute(
        "INSERT OR IGNORE INTO todos (user_id, list_name, item_number, title, datetime, is_completed) VALUES (?1, ?2, ?3, ?4, ?5, ?6)",
        (user_id, &row.list_name, row.item_number, &row.title, &row.datetime, row.is_completed),
    ).map(|_| ())
}

/// Relies on `rusqlite::Statement::query_map`: every todo row of this user
/// id, in the order the store returns them (assumed to be insertion order,
/// but not re-sorted here).
#[verifier::external_body]
pub(crate) fn todo_rows(conn: &rusqlite::Connection, user_id: i64) -> (r: Result<
    Vec<TodoRow>,
    rusqlite::Error,
>) {
    let mut stmt = conn.prepare(
        "SELECT list_name, item_number, title, datetime, is_completed FROM todos WHERE user_id = ?1",
    )?;
    let rows = stmt.query_map(
        (user_id,),
        |row| Ok(TodoRow::new(row.get(0)?, row.get(1)?, row.get(2)?, row.get(3)?, row.get(4)?)),
    )?;
    rows.collect()
}

} // verus!
