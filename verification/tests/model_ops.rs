//! Scenario tests of the in-memory store model.

use timetrack_store::state::{Store, StoreError};

const DAY1: i64 = 19723;
const DAY1_SECS: i64 = 19723 * 86400;
const DAY2: i64 = 19724;
const DAY2_SECS: i64 = 19724 * 86400;

fn store_with(names: &[&str]) -> Store {
    let mut s = Store::new();
    for (i, name) in names.iter().enumerate() {
        let uuid = format!("uuid-{}", i);
        let r = s.add_category(uuid, name.to_string(), "icon".to_string());
        assert!(r.is_ok());
    }
    s
}

#[test]
fn adds_with_distinct_names_report_one_row_each() {
    let s = store_with(&["Reading", "Work", "Rest"]);
    let rows = s.get_all(DAY1).unwrap();
    assert_eq!(rows.len(), 3);
    assert_eq!(rows[0].name, "Reading");
    assert_eq!(rows[1].name, "Work");
    assert_eq!(rows[2].name, "Rest");
    assert_eq!(rows[0].uuid, "uuid-0");
    assert_eq!(rows[1].uuid, "uuid-1");
    assert_eq!(rows[2].uuid, "uuid-2");
    assert!(rows.iter().all(|r| r.time == 0));
    assert!(rows.iter().all(|r| !r.archived && !r.current));
}

#[test]
fn duplicate_name_fails_and_leaves_store_unchanged() {
    let mut s = store_with(&["Reading", "Work"]);
    let r = s.add_category("uuid-9".to_string(), "Work".to_string(), "other".to_string());
    assert_eq!(r, Err(StoreError::NameTaken));
    let rows = s.get_all(DAY1).unwrap();
    assert_eq!(rows.len(), 2);
    assert_eq!(rows[1].name, "Work");
    assert_eq!(rows[1].icon, "icon");
    assert_eq!(rows[1].uuid, "uuid-1");
}

#[test]
fn duplicate_uuid_fails_and_leaves_store_unchanged() {
    let mut s = store_with(&["Reading"]);
    let r = s.add_category("uuid-0".to_string(), "Work".to_string(), "icon".to_string());
    assert_eq!(r, Err(StoreError::UuidTaken));
    assert_eq!(s.get_all(DAY1).unwrap().len(), 1);
}

#[test]
fn set_current_moves_the_flag_exactly() {
    let mut s = store_with(&["Reading", "Work"]);
    let u0 = "uuid-0".to_string();
    let u1 = "uuid-1".to_string();
    assert!(s.get_current(DAY1).unwrap().is_none());
    s.set_current(&u0);
    let c = s.get_current(DAY1).unwrap().unwrap();
    assert_eq!(c.uuid, "uuid-0");
    assert!(c.current);
    s.set_current(&u1);
    let c = s.get_current(DAY1).unwrap().unwrap();
    assert_eq!(c.uuid, "uuid-1");
    let rows = s.get_all(DAY1).unwrap();
    assert!(!rows[0].current && rows[1].current);
}

#[test]
fn set_current_on_absent_identity_leaves_none_current() {
    let mut s = store_with(&["Reading"]);
    s.set_current(&"uuid-0".to_string());
    assert!(s.get_current(DAY1).unwrap().is_some());
    s.set_current(&"no-such".to_string());
    assert!(s.get_current(DAY1).unwrap().is_none());
}

#[test]
fn archive_hides_from_active_and_clears_current() {
    let mut s = store_with(&["Reading", "Work"]);
    let u0 = "uuid-0".to_string();
    s.set_current(&u0);
    s.archive(&u0);
    let active = s.get_active(DAY1).unwrap();
    assert_eq!(active.len(), 1);
    assert_eq!(active[0].uuid, "uuid-1");
    let archived = s.get_archived(DAY1).unwrap();
    assert_eq!(archived.len(), 1);
    assert_eq!(archived[0].uuid, "uuid-0");
    assert!(s.get_current(DAY1).unwrap().is_none());
}

#[test]
fn restore_returns_to_active() {
    let mut s = store_with(&["Reading"]);
    let u0 = "uuid-0".to_string();
    s.archive(&u0);
    assert_eq!(s.get_active(DAY1).unwrap().len(), 0);
    s.restore(&u0);
    assert_eq!(s.get_active(DAY1).unwrap().len(), 1);
    assert_eq!(s.get_archived(DAY1).unwrap().len(), 0);
}

#[test]
fn aggregation_is_scoped_to_the_queried_day() {
    let mut s = store_with(&["Reading", "Work"]);
    s.add_timer("uuid-0".to_string(), DAY1_SECS + 100, 600);
    s.add_timer("uuid-0".to_string(), DAY1_SECS + 5000, 60);
    s.add_timer("uuid-0".to_string(), DAY2_SECS + 100, 300);
    s.add_timer("uuid-1".to_string(), DAY1_SECS + 100, 1200);
    let d1 = s.get_all(DAY1).unwrap();
    assert_eq!(d1[0].time, 660);
    assert_eq!(d1[1].time, 1200);
    let d2 = s.get_all(DAY2).unwrap();
    assert_eq!(d2[0].time, 300);
    assert_eq!(d2[1].time, 0);
    assert_eq!(d2.len(), 2);
}

#[test]
fn day_boundary_splits_at_midnight() {
    let mut s = store_with(&["Reading"]);
    s.add_timer("uuid-0".to_string(), DAY2_SECS - 1, 10);
    s.add_timer("uuid-0".to_string(), DAY2_SECS, 20);
    assert_eq!(s.get_all(DAY1).unwrap()[0].time, 10);
    assert_eq!(s.get_all(DAY2).unwrap()[0].time, 20);
}

#[test]
fn overflowing_sum_is_reported_not_wrapped() {
    let mut s = store_with(&["Reading"]);
    s.add_timer("uuid-0".to_string(), DAY1_SECS, i64::MAX);
    s.add_timer("uuid-0".to_string(), DAY1_SECS + 1, 1);
    assert!(matches!(s.get_all(DAY1), Err(StoreError::SumOverflow)));
    assert_eq!(s.get_all(DAY2).unwrap()[0].time, 0);
}

#[test]
fn rename_respects_name_uniqueness() {
    let mut s = store_with(&["Reading", "Work"]);
    let u0 = "uuid-0".to_string();
    assert!(s.rename(&u0, "Books".to_string()).is_ok());
    assert_eq!(s.get_all(DAY1).unwrap()[0].name, "Books");
    assert_eq!(s.rename(&u0, "Work".to_string()), Err(StoreError::NameTaken));
    assert_eq!(s.get_all(DAY1).unwrap()[0].name, "Books");
    assert!(s.rename(&u0, "Books".to_string()).is_ok());
    assert!(s.rename(&"no-such".to_string(), "Work".to_string()).is_ok());
    assert_eq!(s.get_all(DAY1).unwrap()[1].name, "Work");
}

#[test]
fn set_target_updates_the_row() {
    let mut s = store_with(&["Reading"]);
    let u0 = "uuid-0".to_string();
    s.set_target(&u0, 3600);
    assert_eq!(s.categories[0].daily_target, 3600);
    s.set_target(&"no-such".to_string(), 60);
    assert_eq!(s.categories[0].daily_target, 3600);
}

#[test]
fn at_most_one_current_through_interleaved_operations() {
    let mut s = store_with(&["Reading", "Work", "Rest"]);
    let u0 = "uuid-0".to_string();
    let u1 = "uuid-1".to_string();
    let u2 = "uuid-2".to_string();
    let count_current = |s: &Store| {
        s.get_all(DAY1).unwrap().iter().filter(|r| r.current).count()
    };
    s.set_current(&u0);
    assert_eq!(count_current(&s), 1);
    s.archive(&u0);
    assert_eq!(count_current(&s), 0);
    s.set_current(&u1);
    s.restore(&u0);
    assert_eq!(count_current(&s), 1);
    s.set_current(&u2);
    s.archive(&u1);
    assert_eq!(count_current(&s), 1);
    assert_eq!(s.get_current(DAY1).unwrap().unwrap().uuid, "uuid-2");
}
