//! End-to-end tests of the schema migration engine against the real
//! embedded database, plus unit cases of the planning logic.

use timetrack_store::error::DatabaseError;
use timetrack_store::init::{check_version, init_db, plan_migrations, DB_VERSION};

fn fresh_db_path(tag: &str) -> String {
    let nanos = std::time::SystemTime::now()
        .duration_since(std::time::UNIX_EPOCH)
        .unwrap()
        .as_nanos();
    format!("/tmp/timetrack_store_{}_{}.db", tag, nanos)
}

fn stored_version(path: &str) -> i64 {
    let conn = rusqlite::Connection::open(path).unwrap();
    conn.query_row("SELECT version FROM version WHERE id = 1", (), |row| row.get(0))
        .unwrap()
}

#[test]
fn plan_is_empty_at_target() {
    assert_eq!(plan_migrations(DB_VERSION), Vec::<i64>::new());
}

#[test]
fn plan_runs_every_step_from_scratch() {
    assert_eq!(plan_migrations(0), vec![0, 1, 2]);
    assert_eq!(plan_migrations(2), vec![2]);
    assert_eq!(plan_migrations(DB_VERSION + 5), Vec::<i64>::new());
}

#[test]
fn version_above_target_is_refused() {
    assert!(check_version(DB_VERSION).is_ok());
    assert!(check_version(0).is_ok());
    match check_version(DB_VERSION + 1) {
        Err(DatabaseError::VersionNotSupported(v)) => assert_eq!(v, DB_VERSION + 1),
        _ => panic!("a version above the target must be refused"),
    }
}

#[test]
fn initialize_brings_a_fresh_file_to_the_target_version() {
    let path = fresh_db_path("fresh");
    assert!(init_db(&path).is_ok());
    assert_eq!(stored_version(&path), DB_VERSION);
    let conn = rusqlite::Connection::open(&path).unwrap();
    let n: i64 = conn
        .query_row(
            "SELECT COUNT(*) FROM pragma_table_info('category') WHERE name IN ('uuid', 'name', 'icon_name', 'archived', 'current', 'daily_target')",
            (),
            |row| row.get(0),
        )
        .unwrap();
    assert_eq!(n, 6);
}

#[test]
fn initialize_twice_changes_nothing_and_raises_no_error() {
    let path = fresh_db_path("twice");
    assert!(init_db(&path).is_ok());
    let conn = rusqlite::Connection::open(&path).unwrap();
    conn.execute(
        "INSERT INTO category (uuid, name, icon_name) VALUES ('u-1', 'Reading', 'book')",
        (),
    )
    .unwrap();
    let schema_before: Vec<String> = {
        let mut stmt = conn
            .prepare("SELECT name FROM sqlite_master WHERE type = 'table' ORDER BY name")
            .unwrap();
        let rows = stmt.query_map((), |row| row.get(0)).unwrap();
        rows.map(|r| r.unwrap()).collect()
    };
    drop(conn);
    assert!(init_db(&path).is_ok());
    assert_eq!(stored_version(&path), DB_VERSION);
    let conn = rusqlite::Connection::open(&path).unwrap();
    let schema_after: Vec<String> = {
        let mut stmt = conn
            .prepare("SELECT name FROM sqlite_master WHERE type = 'table' ORDER BY name")
            .unwrap();
        let rows = stmt.query_map((), |row| row.get(0)).unwrap();
        rows.map(|r| r.unwrap()).collect()
    };
    assert_eq!(schema_before, schema_after);
    let name: String = conn
        .query_row("SELECT name FROM category WHERE uuid = 'u-1'", (), |row| row.get(0))
        .unwrap();
    assert_eq!(name, "Reading");
}

#[test]
fn migration_assigns_identities_and_rekeys_timers() {
    let path = fresh_db_path("legacy");
    let conn = rusqlite::Connection::open(&path).unwrap();
    conn.execute(
        "CREATE TABLE category (name TEXT NOT NULL UNIQUE, icon_name TEXT NOT NULL)",
        (),
    )
    .unwrap();
    conn.execute(
        "CREATE TABLE timer (category_name TEXT NOT NULL, start_time INTEGER NOT NULL, duration INTEGER NOT NULL, FOREIGN KEY (category_name) REFERENCES category(name))",
        (),
    )
    .unwrap();
    conn.execute(
        "CREATE TABLE version (id INTEGER PRIMARY KEY, version INTEGER NOT NULL)",
        (),
    )
    .unwrap();
    conn.execute("INSERT INTO version (id, version) VALUES (1, 0)", ()).unwrap();
    conn.execute("INSERT INTO category (name, icon_name) VALUES ('Reading', 'book')", ())
        .unwrap();
    conn.execute("INSERT INTO category (name, icon_name) VALUES ('Work', 'desk')", ())
        .unwrap();
    conn.execute(
        "INSERT INTO timer (category_name, start_time, duration) VALUES ('Reading', 1704067200, 600)",
        (),
    )
    .unwrap();
    conn.execute(
        "INSERT INTO timer (category_name, start_time, duration) VALUES ('Work', 1704067260, 1200)",
        (),
    )
    .unwrap();
    conn.execute(
        "INSERT INTO timer (category_name, start_time, duration) VALUES ('Reading', 1704153600, 300)",
        (),
    )
    .unwrap();
    drop(conn);

    assert!(init_db(&path).is_ok());
    assert_eq!(stored_version(&path), DB_VERSION);

    let conn = rusqlite::Connection::open(&path).unwrap();
    let cats: Vec<(String, String)> = {
        let mut stmt = conn.prepare("SELECT name, uuid FROM category ORDER BY name").unwrap();
        let rows = stmt.query_map((), |row| Ok((row.get(0)?, row.get(1)?))).unwrap();
        rows.map(|r| r.unwrap()).collect()
    };
    assert_eq!(cats.len(), 2);
    assert_eq!(cats[0].0, "Reading");
    assert_eq!(cats[1].0, "Work");
    assert_eq!(cats[0].1.len(), 36);
    assert_eq!(cats[1].1.len(), 36);
    assert_ne!(cats[0].1, cats[1].1);

    let timers: Vec<(String, i64, i64)> = {
        let mut stmt = conn
            .prepare("SELECT category_uuid, start_time, duration FROM timer ORDER BY start_time")
            .unwrap();
        let rows = stmt
            .query_map((), |row| Ok((row.get(0)?, row.get(1)?, row.get(2)?)))
            .unwrap();
        rows.map(|r| r.unwrap()).collect()
    };
    assert_eq!(timers.len(), 3);
    assert_eq!(timers[0], (cats[0].1.clone(), 1704067200, 600));
    assert_eq!(timers[1], (cats[1].1.clone(), 1704067260, 1200));
    assert_eq!(timers[2], (cats[0].1.clone(), 1704153600, 300));
    drop(conn);

    let rows = timetrack_store::db::get_all_categories_info(&path, "2024-01-01").unwrap();
    assert_eq!(rows.len(), 2);
    assert_eq!(rows[0].name, "Reading");
    assert_eq!(rows[0].time, 600);
    assert_eq!(rows[1].name, "Work");
    assert_eq!(rows[1].time, 1200);
}

#[test]
fn newer_database_fails_fast_without_schema_changes() {
    let path = fresh_db_path("newer");
    let conn = rusqlite::Connection::open(&path).unwrap();
    conn.execute(
        "CREATE TABLE category (name TEXT NOT NULL UNIQUE, icon_name TEXT NOT NULL)",
        (),
    )
    .unwrap();
    conn.execute(
        "CREATE TABLE timer (category_name TEXT NOT NULL, start_time INTEGER NOT NULL, duration INTEGER NOT NULL)",
        (),
    )
    .unwrap();
    conn.execute(
        "CREATE TABLE version (id INTEGER PRIMARY KEY, version INTEGER NOT NULL)",
        (),
    )
    .unwrap();
    conn.execute("INSERT INTO version (id, version) VALUES (1, 99)", ()).unwrap();
    drop(conn);

    match init_db(&path) {
        Err(DatabaseError::VersionNotSupported(v)) => assert_eq!(v, 99),
        _ => panic!("initialization must refuse a newer database"),
    }
    assert_eq!(stored_version(&path), 99);
    let conn = rusqlite::Connection::open(&path).unwrap();
    let has_uuid: i64 = conn
        .query_row(
            "SELECT COUNT(*) FROM pragma_table_info('category') WHERE name = 'uuid'",
            (),
            |row| row.get(0),
        )
        .unwrap();
    assert_eq!(has_uuid, 0);
}
