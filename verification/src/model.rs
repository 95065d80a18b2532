//! Data model: categories, timers, and their mathematical views.

use vstd::prelude::*;

verus! {

/// A category as reported by the read queries: the stored columns
/// plus `time`, the sum of same-day timer durations for the queried
/// date (derived at read time, never persisted).
pub struct Category {
    pub uuid: String,
    pub name: String,
    pub icon: String,
    pub time: i64,
    pub archived: bool,
    pub current: bool,
}

/// One completed interval of tracked time, attributed to a category.
pub struct Timer {
    pub category_uuid: String,
    pub start_time: i64,
    pub duration: i64,
}

/// Mathematical view of a `Category`.
pub ghost struct CategoryInfo {
    pub uuid: Seq<char>,
    pub name: Seq<char>,
    pub icon: Seq<char>,
    pub time: int,
    pub archived: bool,
    pub current: bool,
}

/// Mathematical view of a `Timer`.
pub ghost struct TimerData {
    pub category_uuid: Seq<char>,
    pub start_time: int,
    pub duration: int,
}

impl View for Category {
    type V = CategoryInfo;

    open spec fn view(&self) -> CategoryInfo {
        CategoryInfo {
            uuid: self.uuid@,
            name: self.name@,
            icon: self.icon@,
            time: self.time as int,
            archived: self.archived,
            current: self.current,
        }
    }
}

impl View for Timer {
    type V = TimerData;

    open spec fn view(&self) -> TimerData {
        TimerData {
            category_uuid: self.category_uuid@,
            start_time: self.start_time as int,
            duration: self.duration as int,
        }
    }
}

/// A category row as the store keeps it: everything `Category` has
/// except the derived `time` column, plus the daily target.
pub struct CategoryRow {
    pub uuid: String,
    pub name: String,
    pub icon: String,
    pub archived: bool,
    pub current: bool,
    pub daily_target: i64,
}

/// Mathematical view of a stored category row.
pub ghost struct CategoryRowData {
    pub uuid: Seq<char>,
    pub name: Seq<char>,
    pub icon: Seq<char>,
    pub archived: bool,
    pub current: bool,
    pub daily_target: int,
}

impl View for CategoryRow {
    type V = CategoryRowData;

    open spec fn view(&self) -> CategoryRowData {
        CategoryRowData {
            uuid: self.uuid@,
            name: self.name@,
            icon: self.icon@,
            archived: self.archived,
            current: self.current,
            daily_target: self.daily_target as int,
        }
    }
}

} // verus!
