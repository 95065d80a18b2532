//! The aggregation query builder: one query shape shared by every
//! category listing, with the optional predicate drawn from the
//! closed `Filter` enumeration. No caller-supplied text ever reaches
//! the SQL, so the read path admits no injection.

use vstd::prelude::*;

use crate::state::Filter;

verus! {

/// The text `category_query` returns for each filter: the shared
/// left-join-and-sum shape, with the predicate fragment chosen by
/// the enumeration alone.
pub open spec fn category_query_text(filter: Filter) -> Seq<char> {
    match filter {
        Filter::All => (
        "SELECT c.uuid, c.name, c.icon_name, IFNULL(SUM(t.duration), 0) AS total_time, c.archived, c.current FROM category c LEFT JOIN timer t ON c.uuid = t.category_uuid AND date(?1) = date(t.start_time, 'unixepoch') GROUP BY c.name")@,
        Filter::Active => (
        "SELECT c.uuid, c.name, c.icon_name, IFNULL(SUM(t.duration), 0) AS total_time, c.archived, c.current FROM category c LEFT JOIN timer t ON c.uuid = t.category_uuid AND date(?1) = date(t.start_time, 'unixepoch') WHERE c.archived = 0 GROUP BY c.name")@,
        Filter::Archived => (
        "SELECT c.uuid, c.name, c.icon_name, IFNULL(SUM(t.duration), 0) AS total_time, c.archived, c.current FROM category c LEFT JOIN timer t ON c.uuid = t.category_uuid AND date(?1) = date(t.start_time, 'unixepoch') WHERE c.archived = 1 GROUP BY c.name")@,
        Filter::Current => (
        "SELECT c.uuid, c.name, c.icon_name, IFNULL(SUM(t.duration), 0) AS total_time, c.archived, c.current FROM category c LEFT JOIN timer t ON c.uuid = t.category_uuid AND date(?1) = date(t.start_time, 'unixepoch') WHERE c.current = 1 GROUP BY c.name")@,
    }
}

/// Builds the listing query for a filter. The result is pinned to
/// one of the four fixed texts of `category_query_text`.
pub fn category_query(filter: Filter) -> (q: &'static str)
    ensures
        q@ == category_query_text(filter),
{
    match filter {
        Filter::All => (
        "SELECT c.uuid, c.name, c.icon_name, IFNULL(SUM(t.duration), 0) AS total_time, c.archived, c.current FROM category c LEFT JOIN timer t ON c.uuid = t.category_uuid AND date(?1) = date(t.start_time, 'unixepoch') GROUP BY c.name"),
        Filter::Active => (
        "SELECT c.uuid, c.name, c.icon_name, IFNULL(SUM(t.duration), 0) AS total_time, c.archived, c.current FROM category c LEFT JOIN timer t ON c.uuid = t.category_uuid AND date(?1) = date(t.start_time, 'unixepoch') WHERE c.archived = 0 GROUP BY c.name"),
        Filter::Archived => (
        "SELECT c.uuid, c.name, c.icon_name, IFNULL(SUM(t.duration), 0) AS total_time, c.archived, c.current FROM category c LEFT JOIN timer t ON c.uuid = t.category_uuid AND date(?1) = date(t.start_time, 'unixepoch') WHERE c.archived = 1 GROUP BY c.name"),
        Filter::Current => (
        "SELECT c.uuid, c.name, c.icon_name, IFNULL(SUM(t.duration), 0) AS total_time, c.archived, c.current FROM category c LEFT JOIN timer t ON c.uuid = t.category_uuid AND date(?1) = date(t.start_time, 'unixepoch') WHERE c.current = 1 GROUP BY c.name"),
    }
}

} // verus!
