//! The category and timer stores over the on-disk database.
//!
//! Every operation opens its own connection to the file at the given
//! path, issues parameterized SQL whose text is fixed in this crate
//! (see `sql`), and releases the connection on every exit path. The
//! intended effect of each statement on the database state is the
//! like-named operation of `state::Store`; what the engine itself
//! does is trusted through the wrappers below.

use vstd::prelude::*;

use crate::error::DatabaseError;
use crate::model::Category;
use crate::sql::category_query;
use crate::state::Filter;

verus! {

#[verifier::external_type_specification]
#[verifier::external_body]
pub struct ExConnection(rusqlite::Connection);

/// A value bound into a parameterized statement: the store only ever
/// binds strings and 64-bit integers.
pub enum SqlParam {
    Text(String),
    Int(i64),
}

/// Relies on rusqlite::Connection::open: opens the database file at
/// `path`, creating it when absent.
#[verifier::external_body]
pub(crate) fn open_connection(path: &str) -> Result<rusqlite::Connection, rusqlite::Error> {
    rusqlite::Connection::open(path)
}

/// Relies on rusqlite::Connection::execute: runs one parameterized
/// statement that returns no rows and reports the engine's outcome.
#[verifier::external_body]
pub(crate) fn run_statement(
    conn: &rusqlite::Connection,
    sql: &str,
    params: &Vec<SqlParam>,
) -> Result<usize, rusqlite::Error> {
    let values = params.iter().map(|p| match p {
        SqlParam::Text(s) => rusqlite::types::Value::Text(s.clone()),
        SqlParam::Int(i) => rusqlite::types::Value::Integer(*i),
    });
    conn.execute(sql, rusqlite::params_from_iter(values))
}

/// Relies on rusqlite::Statement::query_map (after Connection::prepare):
/// runs a listing query with one date parameter and converts each row
/// (uuid, name, icon_name, total_time, archived, current) to a `Category`.
#[verifier::external_body]
pub(crate) fn query_category_rows(
    conn: &rusqlite::Connection,
    sql: &str,
    date: &str,
) -> Result<Vec<Category>, rusqlite::Error> {
    let mut stmt = conn.prepare(sql)?;
    let rows = stmt.query_map([date], |row| {
        Ok(Category {
            uuid: row.get(0)?,
            name: row.get(1)?,
            icon: row.get(2)?,
            time: row.get(3)?,
            archived: row.get(4)?,
            current: row.get(5)?,
        })
    })?;
    rows.collect()
}

/// Relies on rusqlite::Connection::query_row: reads one 64-bit
/// integer (the stored schema version).
#[verifier::external_body]
pub(crate) fn query_single_i64(
    conn: &rusqlite::Connection,
    sql: &str,
) -> Result<i64, rusqlite::Error> {
    conn.query_row(sql, [], |row| row.get(0))
}

/// Relies on uuidv7::create: a fresh time-ordered unique identifier
/// in the standard hyphenated form, 36 characters long. Uniqueness
/// across calls rests on the generator's time and randomness; where
/// it matters, the database's primary-key constraint checks it.
#[verifier::external_body]
pub(crate) fn new_uuid() -> (r: String)
    ensures
        r@.len() == 36,
{
    uuidv7::create()
}

/// Shared read path of all listings: builds the one aggregation
/// query for `filter` (so only the four fixed texts are ever run)
/// and hands back whatever rows the engine reports.
fn query_categories(
    conn: &rusqlite::Connection,
    filter: Filter,
    date: &str,
) -> (r: Result<Vec<Category>, DatabaseError>)
    ensures
        r matches Err(e) ==> e is RusqliteError,
{
    match query_category_rows(conn, category_query(filter), date) {
        Ok(rows) => Ok(rows),
        Err(e) => Err(DatabaseError::RusqliteError(e)),
    }
}

/// `add(name, icon)`: generates a fresh identity and inserts a
/// non-archived, non-current row with no daily target. The engine
/// refuses a duplicate name (or identity) through the table's
/// uniqueness constraints, leaving the store unchanged; the model of
/// that behaviour is `state::Store::add_category`.
pub fn add_category(path: &str, name: &str, icon_name: &str) -> (r: Result<(), DatabaseError>)
    ensures
        r matches Err(e) ==> e is RusqliteError,
{
    let conn = match open_connection(path) {
        Ok(c) => c,
        Err(e) => {
            return Err(DatabaseError::RusqliteError(e));
        },
    };
    let uuid = new_uuid();
    let mut params: Vec<SqlParam> = Vec::new();
    params.push(SqlParam::Text(uuid));
    params.push(SqlParam::Text(name.to_owned()));
    params.push(SqlParam::Text(icon_name.to_owned()));
    match run_statement(
        &conn,
        "INSERT INTO category (uuid, name, icon_name) VALUES (?1, ?2, ?3)",
        &params,
    ) {
        Ok(_) => Ok(()),
        Err(e) => Err(DatabaseError::RusqliteError(e)),
    }
}

/// `getAll(date)`: every category, each with the sum of its timers
/// whose start date falls on `date` (model: `state::Store::get_all`).
pub fn get_all_categories_info(path: &str, date: &str) -> (r: Result<Vec<Category>, DatabaseError>)
    ensures
        r matches Err(e) ==> e is RusqliteError,
{
    let conn = match open_connection(path) {
        Ok(c) => c,
        Err(e) => {
            return Err(DatabaseError::RusqliteError(e));
        },
    };
    query_categories(&conn, Filter::All, date)
}

/// `getActive(date)`: the non-archived categories with their sums
/// (model: `state::Store::get_active`).
pub fn get_active_categories_info(path: &str, date: &str) -> (r: Result<
    Vec<Category>,
    DatabaseError,
>)
    ensures
        r matches Err(e) ==> e is RusqliteError,
{
    let conn = match open_connection(path) {
        Ok(c) => c,
        Err(e) => {
            return Err(DatabaseError::RusqliteError(e));
        },
    };
    query_categories(&conn, Filter::Active, date)
}

/// `getArchived(date)`: the archived categories with their sums
/// (model: `state::Store::get_archived`).
pub fn get_archived_categories_info(path: &str, date: &str) -> (r: Result<
    Vec<Category>,
    DatabaseError,
>)
    ensures
        r matches Err(e) ==> e is RusqliteError,
{
    let conn = match open_connection(path) {
        Ok(c) => c,
        Err(e) => {
            return Err(DatabaseError::RusqliteError(e));
        },
    };
    query_categories(&conn, Filter::Archived, date)
}

/// First reported row, if any: the selection the current-category
/// read applies to whatever the engine returned (with at most one
/// current category, the first row is the only one).
fn first_category(rows: Vec<Category>) -> (r: Option<Category>)
    ensures
        match r {
            Some(c) => rows@.len() > 0 && c == rows@[0],
            None => rows@.len() == 0,
        },
{
    let mut rows = rows;
    if rows.len() == 0 {
        None
    } else {
        Some(rows.remove(0))
    }
}

/// `getCurrent()`: the category whose current flag is set, with its
/// duration sum for today, or nothing when no category is current.
/// At most one row can carry the flag (see the model's invariant),
/// and only the first reported row is returned in any case.
pub fn get_current_category(path: &str) -> (r: Result<Option<Category>, DatabaseError>)
    ensures
        r matches Err(e) ==> e is RusqliteError,
{
    let conn = match open_connection(path) {
        Ok(c) => c,
        Err(e) => {
            return Err(DatabaseError::RusqliteError(e));
        },
    };
    match query_categories(&conn, Filter::Current, "now") {
        Ok(rows) => Ok(first_category(rows)),
        Err(e) => Err(e),
    }
}

/// `setCurrent(uuid)`: clears the current flag everywhere, then sets
/// it on `uuid`, inside one transaction — either both statements
/// land or neither does, so at most one category is ever current
/// (model: `state::Store::set_current`).
pub fn update_current_category(path: &str, category_uuid: &str) -> (r: Result<(), DatabaseError>)
    ensures
        r matches Err(e) ==> e is RusqliteError,
{
    let conn = match open_connection(path) {
        Ok(c) => c,
        Err(e) => {
            return Err(DatabaseError::RusqliteError(e));
        },
    };
    let no_params: Vec<SqlParam> = Vec::new();
    let mut params: Vec<SqlParam> = Vec::new();
    params.push(SqlParam::Text(category_uuid.to_owned()));
    if let Err(e) = run_statement(&conn, "BEGIN", &no_params) {
        return Err(DatabaseError::RusqliteError(e));
    }
    if let Err(e) = run_statement(&conn, "UPDATE category SET current = 0", &no_params) {
        return Err(DatabaseError::RusqliteError(e));
    }
    if let Err(e) = run_statement(&conn, "UPDATE category SET current = 1 WHERE uuid = ?1", &params)
        {
        return Err(DatabaseError::RusqliteError(e));
    }
    match run_statement(&conn, "COMMIT", &no_params) {
        Ok(_) => Ok(()),
        Err(e) => Err(DatabaseError::RusqliteError(e)),
    }
}

/// `add(categoryUuid, startTime, duration)`: appends one timer row.
/// Referential integrity to the category table is declared, not
/// checked (model: `state::Store::add_timer`).
pub fn add_timer(path: &str, category_uuid: &str, start_time: i64, duration: i64) -> (r: Result<
    (),
    DatabaseError,
>)
    ensures
        r matches Err(e) ==> e is RusqliteError,
{
    let conn = match open_connection(path) {
        Ok(c) => c,
        Err(e) => {
            return Err(DatabaseError::RusqliteError(e));
        },
    };
    let mut params: Vec<SqlParam> = Vec::new();
    params.push(SqlParam::Text(category_uuid.to_owned()));
    params.push(SqlParam::Int(start_time));
    params.push(SqlParam::Int(duration));
    match run_statement(
        &conn,
        "INSERT INTO timer (category_uuid, start_time, duration) VALUES (?1, ?2, ?3)",
        &params,
    ) {
        Ok(_) => Ok(()),
        Err(e) => Err(DatabaseError::RusqliteError(e)),
    }
}

/// `archive(uuid)`: clears the row's current flag and archives it,
/// inside one transaction — an archived category cannot remain the
/// running one (model: `state::Store::archive`).
pub fn archive_category(path: &str, category_uuid: &str) -> (r: Result<(), DatabaseError>)
    ensures
        r matches Err(e) ==> e is RusqliteError,
{
    let conn = match open_connection(path) {
        Ok(c) => c,
        Err(e) => {
            return Err(DatabaseError::RusqliteError(e));
        },
    };
    let no_params: Vec<SqlParam> = Vec::new();
    let mut params: Vec<SqlParam> = Vec::new();
    params.push(SqlParam::Text(category_uuid.to_owned()));
    if let Err(e) = run_statement(&conn, "BEGIN", &no_params) {
        return Err(DatabaseError::RusqliteError(e));
    }
    if let Err(e) = run_statement(
        &conn,
        "UPDATE category SET current = 0 WHERE uuid = ?1",
        &params,
    ) {
        return Err(DatabaseError::RusqliteError(e));
    }
    if let Err(e) = run_statement(
        &conn,
        "UPDATE category SET archived = 1 WHERE uuid = ?1",
        &params,
    ) {
        return Err(DatabaseError::RusqliteError(e));
    }
    match run_statement(&conn, "COMMIT", &no_params) {
        Ok(_) => Ok(()),
        Err(e) => Err(DatabaseError::RusqliteError(e)),
    }
}

/// `restore(uuid)`: clears the archived flag (model:
/// `state::Store::restore`).
pub fn restore_category(path: &str, category_uuid: &str) -> (r: Result<(), DatabaseError>)
    ensures
        r matches Err(e) ==> e is RusqliteError,
{
    let conn = match open_connection(path) {
        Ok(c) => c,
        Err(e) => {
            return Err(DatabaseError::RusqliteError(e));
        },
    };
    let mut params: Vec<SqlParam> = Vec::new();
    params.push(SqlParam::Text(category_uuid.to_owned()));
    match run_statement(&conn, "UPDATE category SET archived = 0 WHERE uuid = ?1", &params) {
        Ok(_) => Ok(()),
        Err(e) => Err(DatabaseError::RusqliteError(e)),
    }
}

/// `rename(uuid, newName)`: single-row update of the name; the
/// engine refuses a collision with another row's name through the
/// uniqueness constraint. A no-op success on an absent identity
/// (model: `state::Store::rename`).
pub fn update_category_name(path: &str, category_uuid: &str, new_name: &str) -> (r: Result<
    (),
    DatabaseError,
>)
    ensures
        r matches Err(e) ==> e is RusqliteError,
{
    let conn = match open_connection(path) {
        Ok(c) => c,
        Err(e) => {
            return Err(DatabaseError::RusqliteError(e));
        },
    };
    let mut params: Vec<SqlParam> = Vec::new();
    params.push(SqlParam::Text(new_name.to_owned()));
    params.push(SqlParam::Text(category_uuid.to_owned()));
    match run_statement(&conn, "UPDATE category SET name = ?1 WHERE uuid = ?2", &params) {
        Ok(_) => Ok(()),
        Err(e) => Err(DatabaseError::RusqliteError(e)),
    }
}

/// `setTarget(uuid, seconds)`: single-row update of the daily
/// target; a no-op success on an absent identity (model:
/// `state::Store::set_target`).
pub fn update_category_target(path: &str, category_uuid: &str, daily_target: i64) -> (r: Result<
    (),
    DatabaseError,
>)
    ensures
        r matches Err(e) ==> e is RusqliteError,
{
    let conn = match open_connection(path) {
        Ok(c) => c,
        Err(e) => {
            return Err(DatabaseError::RusqliteError(e));
        },
    };
    let mut params: Vec<SqlParam> = Vec::new();
    params.push(SqlParam::Int(daily_target));
    params.push(SqlParam::Text(category_uuid.to_owned()));
    match run_statement(&conn, "UPDATE category SET daily_target = ?1 WHERE uuid = ?2", &params) {
        Ok(_) => Ok(()),
        Err(e) => Err(DatabaseError::RusqliteError(e)),
    }
}

} // verus!
