//! End-to-end tests of the store operations against the real
//! embedded database file.

use timetrack_store::db::{
    add_category, add_timer, archive_category, get_active_categories_info,
    get_all_categories_info, get_archived_categories_info, get_current_category,
    restore_category, update_category_name, update_category_target, update_current_category,
};
use timetrack_store::error::DatabaseError;
use timetrack_store::init::init_db;
use timetrack_store::model::Category;

fn fresh_db_path(tag: &str) -> String {
    let nanos = std::time::SystemTime::now()
        .duration_since(std::time::UNIX_EPOCH)
        .unwrap()
        .as_nanos();
    format!("/tmp/timetrack_store_{}_{}.db", tag, nanos)
}

fn uuid_of(rows: &[Category], name: &str) -> String {
    rows.iter().find(|r| r.name == name).unwrap().uuid.clone()
}

#[test]
fn add_and_list_categories() {
    let path = fresh_db_path("add_list");
    init_db(&path).unwrap();
    add_category(&path, "Reading", "book").unwrap();
    add_category(&path, "Work", "desk").unwrap();
    let rows = get_all_categories_info(&path, "2024-01-01").unwrap();
    assert_eq!(rows.len(), 2);
    let mut names: Vec<String> = rows.iter().map(|r| r.name.clone()).collect();
    names.sort();
    assert_eq!(names, vec!["Reading".to_string(), "Work".to_string()]);
    assert!(rows.iter().all(|r| r.time == 0));
    assert!(rows.iter().all(|r| r.uuid.len() == 36));
    assert_ne!(rows[0].uuid, rows[1].uuid);
}

#[test]
fn duplicate_category_name_is_refused_by_the_engine() {
    let path = fresh_db_path("dup_name");
    init_db(&path).unwrap();
    add_category(&path, "Reading", "book").unwrap();
    match add_category(&path, "Reading", "other") {
        Err(DatabaseError::RusqliteError(_)) => {},
        _ => panic!("a duplicate name must be refused"),
    }
    let rows = get_all_categories_info(&path, "2024-01-01").unwrap();
    assert_eq!(rows.len(), 1);
    assert_eq!(rows[0].icon, "book");
}

#[test]
fn aggregation_sums_only_the_queried_date() {
    let path = fresh_db_path("aggregate");
    init_db(&path).unwrap();
    add_category(&path, "Reading", "book").unwrap();
    add_category(&path, "Work", "desk").unwrap();
    let rows = get_all_categories_info(&path, "2024-01-01").unwrap();
    let reading = uuid_of(&rows, "Reading");
    let work = uuid_of(&rows, "Work");
    add_timer(&path, &reading, 1704067200, 600).unwrap();
    add_timer(&path, &reading, 1704100000, 60).unwrap();
    add_timer(&path, &reading, 1704153600, 300).unwrap();
    add_timer(&path, &work, 1704067300, 1200).unwrap();
    let d1 = get_all_categories_info(&path, "2024-01-01").unwrap();
    assert_eq!(d1.iter().find(|r| r.name == "Reading").unwrap().time, 660);
    assert_eq!(d1.iter().find(|r| r.name == "Work").unwrap().time, 1200);
    let d2 = get_all_categories_info(&path, "2024-01-02").unwrap();
    assert_eq!(d2.iter().find(|r| r.name == "Reading").unwrap().time, 300);
    assert_eq!(d2.iter().find(|r| r.name == "Work").unwrap().time, 0);
    assert_eq!(d2.len(), 2);
}

#[test]
fn current_category_moves_atomically() {
    let path = fresh_db_path("current");
    init_db(&path).unwrap();
    add_category(&path, "Reading", "book").unwrap();
    add_category(&path, "Work", "desk").unwrap();
    assert!(get_current_category(&path).unwrap().is_none());
    let rows = get_all_categories_info(&path, "2024-01-01").unwrap();
    let reading = uuid_of(&rows, "Reading");
    let work = uuid_of(&rows, "Work");
    update_current_category(&path, &reading).unwrap();
    let c = get_current_category(&path).unwrap().unwrap();
    assert_eq!(c.uuid, reading);
    update_current_category(&path, &work).unwrap();
    let c = get_current_category(&path).unwrap().unwrap();
    assert_eq!(c.uuid, work);
    let rows = get_all_categories_info(&path, "2024-01-01").unwrap();
    assert_eq!(rows.iter().filter(|r| r.current).count(), 1);
}

#[test]
fn archive_excludes_from_active_and_clears_current() {
    let path = fresh_db_path("archive");
    init_db(&path).unwrap();
    add_category(&path, "Reading", "book").unwrap();
    add_category(&path, "Work", "desk").unwrap();
    let rows = get_all_categories_info(&path, "2024-01-01").unwrap();
    let reading = uuid_of(&rows, "Reading");
    update_current_category(&path, &reading).unwrap();
    archive_category(&path, &reading).unwrap();
    let active = get_active_categories_info(&path, "2024-01-01").unwrap();
    assert_eq!(active.len(), 1);
    assert_eq!(active[0].name, "Work");
    let archived = get_archived_categories_info(&path, "2024-01-01").unwrap();
    assert_eq!(archived.len(), 1);
    assert_eq!(archived[0].name, "Reading");
    assert!(get_current_category(&path).unwrap().is_none());
    restore_category(&path, &reading).unwrap();
    assert_eq!(get_active_categories_info(&path, "2024-01-01").unwrap().len(), 2);
}

#[test]
fn rename_respects_uniqueness_and_target_is_stored() {
    let path = fresh_db_path("rename");
    init_db(&path).unwrap();
    add_category(&path, "Reading", "book").unwrap();
    add_category(&path, "Work", "desk").unwrap();
    let rows = get_all_categories_info(&path, "2024-01-01").unwrap();
    let reading = uuid_of(&rows, "Reading");
    update_category_name(&path, &reading, "Books").unwrap();
    let rows = get_all_categories_info(&path, "2024-01-01").unwrap();
    assert!(rows.iter().any(|r| r.name == "Books"));
    assert!(!rows.iter().any(|r| r.name == "Reading"));
    match update_category_name(&path, &reading, "Work") {
        Err(DatabaseError::RusqliteError(_)) => {},
        _ => panic!("a name collision must be refused"),
    }
    update_category_target(&path, &reading, 3600).unwrap();
    let conn = rusqlite::Connection::open(&path).unwrap();
    let target: i64 = conn
        .query_row(
            "SELECT daily_target FROM category WHERE uuid = ?1",
            (&reading,),
            |row| row.get(0),
        )
        .unwrap();
    assert_eq!(target, 3600);
}
