//! The schema migration engine.
//!
//! A single version record governs the schema. `init_db` idempotently
//! creates the first-version structures, then applies every pending
//! migration step, in order, each inside its own transaction with the
//! version counter advanced as the step's last statement. A database
//! written by a newer release (stored version above `DB_VERSION`) is
//! refused outright; no downgrade path exists.
//!
//! The step catalogue:
//! - step 0: add the `archived` and `current` flags to the category
//!   table;
//! - step 1: introduce the `uuid` identity column, backfilling a
//!   fresh identifier per row and rekeying the timer table from
//!   category names to identities (a rebuild-and-rename, since the
//!   engine's ALTER support is additive only);
//! - step 2: add the `daily_target` column.
//!
//! The backfill of step 1 is computed in `rebuild_with_identities`,
//! a verified function with an exact contract; the engine only
//! writes its output back.

use vstd::prelude::*;

use crate::db::{
    new_uuid, open_connection, query_single_i64, run_statement, SqlParam,
};
use crate::error::DatabaseError;
use crate::model::{CategoryRow, CategoryRowData, Timer, TimerData};
use crate::state::timer_views;

verus! {

/// The schema version this build targets.
pub const DB_VERSION: i64 = 3;

/// The migration steps still to run for a database at version
/// `stored`: step `i` carries a database from version `i` to
/// `i + 1`, so the pending steps are `stored`, `stored + 1`, ...
/// up to (excluding) the target. A database at the target needs
/// none — running initialization again applies nothing.
pub open spec fn pending_steps(stored: int) -> Seq<int> {
    if 0 <= stored <= DB_VERSION {
        Seq::new((DB_VERSION - stored) as nat, |i: int| stored + i)
    } else {
        Seq::empty()
    }
}

/// A database already at the target version has no pending step:
/// initialization is idempotent at the planning level (and the
/// first-run statements are create-if-absent).
pub proof fn lemma_no_pending_at_target()
    ensures
        pending_steps(DB_VERSION as int).len() == 0,
{
}

/// Refuses a stored schema version above this build's target, and
/// nothing else: the error carries exactly the offending version.
pub fn check_version(stored: i64) -> (r: Result<(), DatabaseError>)
    ensures
        r is Ok <==> stored <= DB_VERSION,
        r matches Err(e) ==> e matches DatabaseError::VersionNotSupported(v) && v == stored,
{
    if stored > DB_VERSION {
        Err(DatabaseError::VersionNotSupported(stored))
    } else {
        Ok(())
    }
}

/// The ordered list of steps to run for a database at version
/// `stored`, exactly as `pending_steps` gives it.
pub fn plan_migrations(stored: i64) -> (r: Vec<i64>)
    ensures
        r@.len() == pending_steps(stored as int).len(),
        forall|i: int| 0 <= i < r@.len() ==> r@[i] == pending_steps(stored as int)[i],
        forall|i: int| 0 <= i < r@.len() ==> 0 <= #[trigger] r@[i] < DB_VERSION,
{
    let mut plan: Vec<i64> = Vec::new();
    if 0 <= stored && stored <= DB_VERSION {
        let mut v = stored;
        while v < DB_VERSION
            invariant
                stored <= v <= DB_VERSION,
                0 <= stored,
                plan@.len() == v - stored,
                forall|i: int| 0 <= i < plan@.len() ==> plan@[i] == stored + i,
            decreases DB_VERSION - v,
        {
            plan.push(v);
            v = v + 1;
        }
    }
    plan
}

/// A category row as the pre-identity schema stores it: keyed by
/// its unique name, no identity column yet.
pub struct LegacyCategory {
    pub name: String,
    pub icon: String,
    pub archived: bool,
    pub current: bool,
}

/// A timer row as the pre-identity schema stores it: keyed by the
/// category's name.
pub struct LegacyTimer {
    pub category_name: String,
    pub start_time: i64,
    pub duration: i64,
}

/// Mathematical view of a pre-identity category row.
pub ghost struct LegacyCategoryData {
    pub name: Seq<char>,
    pub icon: Seq<char>,
    pub archived: bool,
    pub current: bool,
}

/// Mathematical view of a pre-identity timer row.
pub ghost struct LegacyTimerData {
    pub category_name: Seq<char>,
    pub start_time: int,
    pub duration: int,
}

impl View for LegacyCategory {
    type V = LegacyCategoryData;

    open spec fn view(&self) -> LegacyCategoryData {
        LegacyCategoryData {
            name: self.name@,
            icon: self.icon@,
            archived: self.archived,
            current: self.current,
        }
    }
}

impl View for LegacyTimer {
    type V = LegacyTimerData;

    open spec fn view(&self) -> LegacyTimerData {
        LegacyTimerData {
            category_name: self.category_name@,
            start_time: self.start_time as int,
            duration: self.duration as int,
        }
    }
}

pub open spec fn legacy_category_views(cats: Seq<LegacyCategory>) -> Seq<LegacyCategoryData> {
    Seq::new(cats.len(), |i: int| cats[i]@)
}

pub open spec fn legacy_timer_views(timers: Seq<LegacyTimer>) -> Seq<LegacyTimerData> {
    Seq::new(timers.len(), |i: int| timers[i]@)
}

pub open spec fn uuid_views(uuids: Seq<String>) -> Seq<Seq<char>> {
    Seq::new(uuids.len(), |i: int| uuids[i]@)
}

/// Index of the first pre-identity category named `n`, or -1 when
/// none is.
pub open spec fn find_by_name(cats: Seq<LegacyCategoryData>, n: Seq<char>) -> int
    decreases cats.len(),
{
    if cats.len() == 0 {
        -1
    } else if cats[0].name == n {
        0
    } else {
        let rest = find_by_name(cats.drop_first(), n);
        if rest < 0 {
            -1
        } else {
            rest + 1
        }
    }
}

/// The timer table after rekeying: each timer whose category name
/// resolves is mapped to that category's assigned identity, in
/// order; a timer naming no category is dropped (the engine's
/// rebuild joins on the name).
pub open spec fn remapped_timers(
    ts: Seq<LegacyTimerData>,
    cats: Seq<LegacyCategoryData>,
    uuids: Seq<Seq<char>>,
) -> Seq<TimerData>
    decreases ts.len(),
{
    if ts.len() == 0 {
        Seq::empty()
    } else {
        let rest = remapped_timers(ts.drop_last(), cats, uuids);
        let k = find_by_name(cats, ts.last().category_name);
        if 0 <= k < uuids.len() {
            rest.push(
                TimerData {
                    category_uuid: uuids[k],
                    start_time: ts.last().start_time,
                    duration: ts.last().duration,
                },
            )
        } else {
            rest
        }
    }
}

/// `find_by_name` reports the first hit.
proof fn lemma_find_hit(cats: Seq<LegacyCategoryData>, n: Seq<char>, i: int)
    requires
        0 <= i < cats.len(),
        cats[i].name == n,
        forall|k: int| 0 <= k < i ==> #[trigger] cats[k].name != n,
    ensures
        find_by_name(cats, n) == i,
    decreases i,
{
    if i == 0 {
    } else {
        let rest = cats.drop_first();
        assert(forall|k: int| 0 <= k < rest.len() ==> #[trigger] rest[k] == cats[k + 1]);
        lemma_find_hit(rest, n, i - 1);
    }
}

/// `find_by_name` misses exactly when no row carries the name.
proof fn lemma_find_miss(cats: Seq<LegacyCategoryData>, n: Seq<char>)
    requires
        forall|k: int| 0 <= k < cats.len() ==> #[trigger] cats[k].name != n,
    ensures
        find_by_name(cats, n) == -1,
    decreases cats.len(),
{
    if cats.len() > 0 {
        let rest = cats.drop_first();
        assert(forall|k: int| 0 <= k < rest.len() ==> #[trigger] rest[k] == cats[k + 1]);
        lemma_find_miss(rest, n);
    }
}

/// Index of the first category named `name`, as the executable
/// search finds it.
fn find_name_index(cats: &Vec<LegacyCategory>, name: &String) -> (r: Option<usize>)
    ensures
        match r {
            Some(k) => k < cats@.len() && find_by_name(legacy_category_views(cats@), name@)
                == k as int,
            None => find_by_name(legacy_category_views(cats@), name@) == -1,
        },
{
    let ghost cv = legacy_category_views(cats@);
    let n = cats.len();
    let mut i: usize = 0;
    while i < n
        invariant
            n == cats@.len(),
            cv == legacy_category_views(cats@),
            cv.len() == n,
            i <= n,
            forall|k: int| 0 <= k < i ==> #[trigger] cv[k].name != name@,
        decreases n - i,
    {
        if cats[i].name == *name {
            proof {
                assert(cv[i as int].name == name@);
                lemma_find_hit(cv, name@, i as int);
            }
            return Some(i);
        }
        i = i + 1;
    }
    proof {
        lemma_find_miss(cv, name@);
    }
    None
}

/// One step of `remapped_timers` along a prefix of the timer log.
proof fn lemma_remap_step(
    ts: Seq<LegacyTimerData>,
    cats: Seq<LegacyCategoryData>,
    uuids: Seq<Seq<char>>,
    j: int,
)
    requires
        0 <= j < ts.len(),
    ensures
        remapped_timers(ts.take(j + 1), cats, uuids) == ({
            let rest = remapped_timers(ts.take(j), cats, uuids);
            let k = find_by_name(cats, ts[j].category_name);
            if 0 <= k < uuids.len() {
                rest.push(
                    TimerData {
                        category_uuid: uuids[k],
                        start_time: ts[j].start_time,
                        duration: ts[j].duration,
                    },
                )
            } else {
                rest
            }
        }),
{
    assert(ts.take(j + 1).drop_last() =~= ts.take(j));
    assert(ts.take(j + 1).last() == ts[j]);
}

/// When every timer's category name resolves, the rekeying is
/// total and order-preserving: the rebuilt log has one row per
/// legacy row, pointing at the identity assigned to the category
/// that carried the timer's name — the name-to-identity mapping is
/// preserved exactly.
pub proof fn lemma_remap_preserves_links(
    ts: Seq<LegacyTimerData>,
    cats: Seq<LegacyCategoryData>,
    uuids: Seq<Seq<char>>,
)
    requires
        forall|j: int|
            0 <= j < ts.len() ==> 0 <= find_by_name(cats, #[trigger] ts[j].category_name)
                < uuids.len(),
    ensures
        remapped_timers(ts, cats, uuids).len() == ts.len(),
        forall|j: int|
            0 <= j < ts.len() ==> #[trigger] remapped_timers(ts, cats, uuids)[j] == (TimerData {
                category_uuid: uuids[find_by_name(cats, ts[j].category_name)],
                start_time: ts[j].start_time,
                duration: ts[j].duration,
            }),
    decreases ts.len(),
{
    if ts.len() > 0 {
        let prefix = ts.drop_last();
        assert(forall|j: int| 0 <= j < prefix.len() ==> #[trigger] prefix[j] == ts[j]);
        lemma_remap_preserves_links(prefix, cats, uuids);
        assert(ts.last() == ts[ts.len() - 1]);
        assert(forall|j: int|
            0 <= j < prefix.len() ==> #[trigger] remapped_timers(ts, cats, uuids)[j]
                == remapped_timers(prefix, cats, uuids)[j]);
    }
}

/// The identity backfill of the rebuild step, computed as plain
/// data: category `i` receives identity `uuids[i]` with its columns
/// carried over (and no daily target yet), and the timer log is
/// rekeyed by `remapped_timers`. The engine writes exactly this
/// output back; the database's primary-key constraint checks the
/// identities' uniqueness on insertion.
pub fn rebuild_with_identities(
    cats: &Vec<LegacyCategory>,
    timers: &Vec<LegacyTimer>,
    uuids: &Vec<String>,
) -> (r: (Vec<CategoryRow>, Vec<Timer>))
    requires
        uuids@.len() == cats@.len(),
    ensures
        r.0@.len() == cats@.len(),
        forall|i: int|
            0 <= i < cats@.len() ==> #[trigger] r.0@[i]@ == (CategoryRowData {
                uuid: uuids@[i]@,
                name: cats@[i]@.name,
                icon: cats@[i]@.icon,
                archived: cats@[i]@.archived,
                current: cats@[i]@.current,
                daily_target: 0,
            }),
        timer_views(r.1@) == remapped_timers(
            legacy_timer_views(timers@),
            legacy_category_views(cats@),
            uuid_views(uuids@),
        ),
{
    let ghost cv = legacy_category_views(cats@);
    let ghost tv = legacy_timer_views(timers@);
    let ghost uv = uuid_views(uuids@);
    let n = cats.len();
    let mut rows: Vec<CategoryRow> = Vec::new();
    let mut i: usize = 0;
    while i < n
        invariant
            n == cats@.len(),
            uuids@.len() == cats@.len(),
            i <= n,
            rows@.len() == i,
            forall|k: int|
                0 <= k < i ==> #[trigger] rows@[k]@ == (CategoryRowData {
                    uuid: uuids@[k]@,
                    name: cats@[k]@.name,
                    icon: cats@[k]@.icon,
                    archived: cats@[k]@.archived,
                    current: cats@[k]@.current,
                    daily_target: 0,
                }),
        decreases n - i,
    {
        let c = &cats[i];
        rows.push(
            CategoryRow {
                uuid: uuids[i].clone(),
                name: c.name.clone(),
                icon: c.icon.clone(),
                archived: c.archived,
                current: c.current,
                daily_target: 0,
            },
        );
        i = i + 1;
    }
    let m = timers.len();
    let mut moved: Vec<Timer> = Vec::new();
    let mut j: usize = 0;
    while j < m
        invariant
            m == timers@.len(),
            uuids@.len() == cats@.len(),
            cv == legacy_category_views(cats@),
            tv == legacy_timer_views(timers@),
            uv == uuid_views(uuids@),
            tv.len() == m,
            uv.len() == cats@.len(),
            j <= m,
            timer_views(moved@) == remapped_timers(tv.take(j as int), cv, uv),
        decreases m - j,
    {
        proof {
            assert(timers@[j as int]@ == tv[j as int]);
            lemma_remap_step(tv, cv, uv, j as int);
        }
        let t = &timers[j];
        match find_name_index(cats, &t.category_name) {
            Some(k) => {
                moved.push(
                    Timer {
                        category_uuid: uuids[k].clone(),
                        start_time: t.start_time,
                        duration: t.duration,
                    },
                );
                proof {
                    assert(uuids@[k as int]@ == uv[k as int]);
                    assert(timer_views(moved@) =~= remapped_timers(
                        tv.take(j as int + 1),
                        cv,
                        uv,
                    ));
                }
            },
            None => {
                proof {
                    assert(timer_views(moved@) =~= remapped_timers(
                        tv.take(j as int + 1),
                        cv,
                        uv,
                    ));
                }
            },
        }
        j = j + 1;
    }
    proof {
        assert(tv.take(m as int) =~= tv);
        assert(timer_views(moved@) == remapped_timers(tv, cv, uv));
    }
    (rows, moved)
}


/// Identities assigned positionally from a pairwise-distinct list
/// are pairwise distinct on the rebuilt rows: after the rebuild,
/// every category carries its own unique identity.
pub proof fn lemma_assigned_identities_distinct(
    rows: Seq<CategoryRowData>,
    uuids: Seq<Seq<char>>,
)
    requires
        rows.len() == uuids.len(),
        forall|i: int| 0 <= i < rows.len() ==> #[trigger] rows[i].uuid == uuids[i],
        forall|i: int, j: int|
            0 <= i < j < uuids.len() ==> #[trigger] uuids[i] != #[trigger] uuids[j],
    ensures
        forall|i: int, j: int|
            0 <= i < j < rows.len() ==> #[trigger] rows[i].uuid != #[trigger] rows[j].uuid,
{
}

/// Relies on rusqlite::Statement::query_map (after
/// Connection::prepare): reads the pre-identity category rows
/// (name, icon_name, archived, current) during the rebuild step.
#[verifier::external_body]
fn query_legacy_categories(
    conn: &rusqlite::Connection,
    sql: &str,
) -> Result<Vec<LegacyCategory>, rusqlite::Error> {
    let mut stmt = conn.prepare(sql)?;
    let rows = stmt.query_map([], |row| {
        Ok(LegacyCategory {
            name: row.get(0)?,
            icon: row.get(1)?,
            archived: row.get(2)?,
            current: row.get(3)?,
        })
    })?;
    rows.collect()
}

/// Relies on rusqlite::Statement::query_map (after
/// Connection::prepare): reads the pre-identity timer rows
/// (category_name, start_time, duration) during the rebuild step.
#[verifier::external_body]
fn query_legacy_timers(
    conn: &rusqlite::Connection,
    sql: &str,
) -> Result<Vec<LegacyTimer>, rusqlite::Error> {
    let mut stmt = conn.prepare(sql)?;
    let rows = stmt.query_map([], |row| {
        Ok(LegacyTimer {
            category_name: row.get(0)?,
            start_time: row.get(1)?,
            duration: row.get(2)?,
        })
    })?;
    rows.collect()
}

/// First-run structures, create-if-absent so that re-running after
/// any migration never errors: the first-version tables and the
/// version record, seeded at 0 (migrations bring it to the target).
fn create_tables(conn: &rusqlite::Connection) -> (r: Result<(), rusqlite::Error>) {
    let no_params: Vec<SqlParam> = Vec::new();
    run_statement(conn, "BEGIN", &no_params)?;
    run_statement(
        conn,
        "CREATE TABLE IF NOT EXISTS category (name TEXT NOT NULL UNIQUE, icon_name TEXT NOT NULL)",
        &no_params,
    )?;
    run_statement(
        conn,
        "CREATE TABLE IF NOT EXISTS timer (category_name TEXT NOT NULL, start_time INTEGER NOT NULL, duration INTEGER NOT NULL, FOREIGN KEY (category_name) REFERENCES category(name))",
        &no_params,
    )?;
    run_statement(
        conn,
        "CREATE TABLE IF NOT EXISTS version (id INTEGER PRIMARY KEY, version INTEGER NOT NULL)",
        &no_params,
    )?;
    run_statement(
        conn,
        "INSERT INTO version (id, version) SELECT 1, 0 WHERE NOT EXISTS (SELECT 1 FROM version WHERE id = 1)",
        &no_params,
    )?;
    run_statement(conn, "COMMIT", &no_params)?;
    Ok(())
}

/// Step 0: add the `archived` and `current` flags, default off, and
/// advance the version — one transaction.
fn step_add_state_flags(conn: &rusqlite::Connection) -> (r: Result<(), rusqlite::Error>) {
    let no_params: Vec<SqlParam> = Vec::new();
    run_statement(conn, "BEGIN", &no_params)?;
    run_statement(
        conn,
        "ALTER TABLE category ADD COLUMN archived INTEGER DEFAULT 0",
        &no_params,
    )?;
    run_statement(
        conn,
        "ALTER TABLE category ADD COLUMN current INTEGER DEFAULT 0",
        &no_params,
    )?;
    run_statement(conn, "UPDATE version SET version = 1 WHERE id = 1", &no_params)?;
    run_statement(conn, "COMMIT", &no_params)?;
    Ok(())
}

/// Step 1: introduce the `uuid` identity column. The replacement
/// tables are built with the desired final shape, the transformed
/// rows (computed by `rebuild_with_identities`) are copied across,
/// and the originals are dropped and the replacements renamed into
/// place — all inside one transaction, with foreign-key checking
/// suspended for the rebuild and restored after it. The version
/// counter advances as the transaction's last statement, so a
/// failure anywhere leaves the prior version recorded.
fn step_introduce_identities(conn: &rusqlite::Connection) -> (r: Result<(), rusqlite::Error>) {
    let no_params: Vec<SqlParam> = Vec::new();
    run_statement(conn, "PRAGMA foreign_keys = OFF", &no_params)?;
    let cats = query_legacy_categories(
        conn,
        "SELECT name, icon_name, archived, current FROM category",
    )?;
    let timers = query_legacy_timers(
        conn,
        "SELECT category_name, start_time, duration FROM timer",
    )?;
    let mut uuids: Vec<String> = Vec::new();
    let n = cats.len();
    while uuids.len() < n
        invariant
            uuids@.len() <= n,
        decreases n - uuids.len(),
    {
        uuids.push(new_uuid());
    }
    let rebuilt = rebuild_with_identities(&cats, &timers, &uuids);
    run_statement(conn, "BEGIN", &no_params)?;
    run_statement(
        conn,
        "CREATE TABLE category_new (uuid TEXT PRIMARY KEY, name TEXT NOT NULL UNIQUE, icon_name TEXT NOT NULL, archived INTEGER DEFAULT 0, current INTEGER DEFAULT 0)",
        &no_params,
    )?;
    let mut i: usize = 0;
    while i < rebuilt.0.len()
        invariant
            i <= rebuilt.0@.len(),
        decreases rebuilt.0@.len() - i,
    {
        let row = &rebuilt.0[i];
        let mut params: Vec<SqlParam> = Vec::new();
        params.push(SqlParam::Text(row.uuid.clone()));
        params.push(SqlParam::Text(row.name.clone()));
        params.push(SqlParam::Text(row.icon.clone()));
        params.push(SqlParam::Int(if row.archived { 1 } else { 0 }));
        params.push(SqlParam::Int(if row.current { 1 } else { 0 }));
        run_statement(
            conn,
            "INSERT INTO category_new (uuid, name, icon_name, archived, current) VALUES (?1, ?2, ?3, ?4, ?5)",
            &params,
        )?;
        i = i + 1;
    }
    run_statement(
        conn,
        "CREATE TABLE timer_new (category_uuid TEXT NOT NULL, start_time INTEGER NOT NULL, duration INTEGER NOT NULL, FOREIGN KEY (category_uuid) REFERENCES category(uuid))",
        &no_params,
    )?;
    let mut j: usize = 0;
    while j < rebuilt.1.len()
        invariant
            j <= rebuilt.1@.len(),
        decreases rebuilt.1@.len() - j,
    {
        let t = &rebuilt.1[j];
        let mut params: Vec<SqlParam> = Vec::new();
        params.push(SqlParam::Text(t.category_uuid.clone()));
        params.push(SqlParam::Int(t.start_time));
        params.push(SqlParam::Int(t.duration));
        run_statement(
            conn,
            "INSERT INTO timer_new (category_uuid, start_time, duration) VALUES (?1, ?2, ?3)",
            &params,
        )?;
        j = j + 1;
    }
    run_statement(conn, "DROP TABLE timer", &no_params)?;
    run_statement(conn, "DROP TABLE category", &no_params)?;
    run_statement(conn, "ALTER TABLE category_new RENAME TO category", &no_params)?;
    run_statement(conn, "ALTER TABLE timer_new RENAME TO timer", &no_params)?;
    run_statement(conn, "UPDATE version SET version = 2 WHERE id = 1", &no_params)?;
    run_statement(conn, "COMMIT", &no_params)?;
    run_statement(conn, "PRAGMA foreign_keys = ON", &no_params)?;
    Ok(())
}

/// Step 2: add the `daily_target` column, default 0, and advance the
/// version — one transaction.
fn step_add_daily_target(conn: &rusqlite::Connection) -> (r: Result<(), rusqlite::Error>) {
    let no_params: Vec<SqlParam> = Vec::new();
    run_statement(conn, "BEGIN", &no_params)?;
    run_statement(
        conn,
        "ALTER TABLE category ADD COLUMN daily_target INTEGER DEFAULT 0",
        &no_params,
    )?;
    run_statement(conn, "UPDATE version SET version = 3 WHERE id = 1", &no_params)?;
    run_statement(conn, "COMMIT", &no_params)?;
    Ok(())
}

/// Runs the step that carries a database from version `step` to
/// `step + 1`.
fn apply_step(conn: &rusqlite::Connection, step: i64) -> (r: Result<(), rusqlite::Error>)
    requires
        0 <= step < DB_VERSION,
{
    if step == 0 {
        step_add_state_flags(conn)
    } else if step == 1 {
        step_introduce_identities(conn)
    } else {
        step_add_daily_target(conn)
    }
}

/// Reads the stored schema version, refuses one above this build's
/// target (the only source of `VersionNotSupported`, and before any
/// schema change), and applies the pending steps in ascending order.
pub fn check_and_update_db_schema(path: &str) -> (r: Result<(), DatabaseError>)
    ensures
        r matches Err(DatabaseError::VersionNotSupported(v)) ==> v > DB_VERSION,
{
    let conn = match open_connection(path) {
        Ok(c) => c,
        Err(e) => {
            return Err(DatabaseError::RusqliteError(e));
        },
    };
    let stored = match query_single_i64(&conn, "SELECT version FROM version WHERE id = 1") {
        Ok(v) => v,
        Err(e) => {
            return Err(DatabaseError::RusqliteError(e));
        },
    };
    if let Err(e) = check_version(stored) {
        return Err(e);
    }
    let plan = plan_migrations(stored);
    let mut i: usize = 0;
    while i < plan.len()
        invariant
            i <= plan@.len(),
            forall|k: int| 0 <= k < plan@.len() ==> 0 <= #[trigger] plan@[k] < DB_VERSION,
        decreases plan@.len() - i,
    {
        if let Err(e) = apply_step(&conn, plan[i]) {
            return Err(DatabaseError::RusqliteError(e));
        }
        i = i + 1;
    }
    Ok(())
}

/// `initialize(storagePath)`: idempotently ensures the tables and
/// the version record exist, then brings the schema to this build's
/// target version. Safe on every start, on a brand-new file and on
/// one last touched by an older release; fatal (and schema-
/// preserving) on one touched by a newer release.
pub fn init_db(path: &str) -> (r: Result<(), DatabaseError>)
    ensures
        r matches Err(DatabaseError::VersionNotSupported(v)) ==> v > DB_VERSION,
{
    let conn = match open_connection(path) {
        Ok(c) => c,
        Err(e) => {
            return Err(DatabaseError::RusqliteError(e));
        },
    };
    if let Err(e) = create_tables(&conn) {
        return Err(DatabaseError::RusqliteError(e));
    }
    check_and_update_db_schema(path)
}

} // verus!
