//! Laws of the store, proved over the transition functions of
//! `state`. Each holds for every store satisfying the invariants,
//! not merely for the scenarios the tests run.

use vstd::prelude::*;

use crate::model::{CategoryRowData, TimerData};
use crate::state::{
    add_applied, archive_applied, fresh_row, has_name, has_uuid, keeps, lemma_current_count,
    selected, set_current_applied, sum_for, timer_added, timer_matches, Filter, StoreState,
};

verus! {

/// Every category is reported exactly once by the unfiltered
/// listing: the selection with no predicate is the table itself, so
/// a store with one row per successful `add` reports one row per
/// `add`.
pub proof fn lemma_one_row_per_category(s: StoreState)
    ensures
        selected(s.categories, Filter::All) == s.categories,
    decreases s.categories.len(),
{
    if s.categories.len() > 0 {
        let prefix = StoreState { categories: s.categories.drop_last(), timers: s.timers };
        lemma_one_row_per_category(prefix);
        assert(selected(s.categories, Filter::All) =~= s.categories);
    }
}

/// A successful `add` appends exactly one row, with the fresh
/// identity, and keeps identities and names pairwise distinct: in a
/// store built by `add` calls with distinct names, every category
/// carries a distinct identity.
pub proof fn lemma_add_appends_distinct(
    s: StoreState,
    uuid: Seq<char>,
    name: Seq<char>,
    icon: Seq<char>,
)
    requires
        s.wf(),
        !has_uuid(s.categories, uuid),
        !has_name(s.categories, name),
    ensures
        add_applied(s, uuid, name, icon).wf(),
        add_applied(s, uuid, name, icon).categories.len() == s.categories.len() + 1,
        add_applied(s, uuid, name, icon).categories.last() == fresh_row(uuid, name, icon),
        forall|i: int|
            0 <= i < s.categories.len() ==> add_applied(s, uuid, name, icon).categories[i]
                == #[trigger] s.categories[i],
{
    let s1 = add_applied(s, uuid, name, icon);
    assert forall|i: int, j: int| 0 <= i < j < s1.categories.len() implies #[trigger] s1
        .categories[i].uuid != #[trigger] s1.categories[j].uuid by {
        if j == s1.categories.len() - 1 {
            assert(s1.categories[i] == s.categories[i]);
        }
    }
    assert forall|i: int, j: int| 0 <= i < j < s1.categories.len() implies #[trigger] s1
        .categories[i].name != #[trigger] s1.categories[j].name by {
        if j == s1.categories.len() - 1 {
            assert(s1.categories[i] == s.categories[i]);
        }
    }
}

/// Every row a filtered listing reports equals `c`, provided every
/// table row passing the filter equals `c`.
proof fn lemma_selected_only(cats: Seq<CategoryRowData>, f: Filter, c: CategoryRowData)
    requires
        forall|i: int| 0 <= i < cats.len() && keeps(f, #[trigger] cats[i]) ==> cats[i] == c,
    ensures
        forall|j: int|
            0 <= j < selected(cats, f).len() ==> #[trigger] selected(cats, f)[j] == c,
    decreases cats.len(),
{
    if cats.len() > 0 {
        let prefix = cats.drop_last();
        assert(forall|i: int| 0 <= i < prefix.len() ==> #[trigger] prefix[i] == cats[i]);
        lemma_selected_only(prefix, f, c);
        assert(cats.last() == cats[cats.len() - 1]);
        assert forall|j: int| 0 <= j < selected(cats, f).len() implies #[trigger] selected(
            cats,
            f,
        )[j] == c by {
            if j < selected(prefix, f).len() {
                assert(selected(cats, f)[j] == selected(prefix, f)[j]);
            } else {
                assert(selected(cats, f)[j] == cats.last());
            }
        }
    }
}

/// No row a filtered listing reports has identity `u`, provided no
/// table row passing the filter has it.
proof fn lemma_selected_excludes(cats: Seq<CategoryRowData>, f: Filter, u: Seq<char>)
    requires
        forall|i: int| 0 <= i < cats.len() && keeps(f, #[trigger] cats[i]) ==> cats[i].uuid != u,
    ensures
        forall|j: int|
            0 <= j < selected(cats, f).len() ==> #[trigger] selected(cats, f)[j].uuid != u,
    decreases cats.len(),
{
    if cats.len() > 0 {
        let prefix = cats.drop_last();
        assert(forall|i: int| 0 <= i < prefix.len() ==> #[trigger] prefix[i] == cats[i]);
        lemma_selected_excludes(prefix, f, u);
        assert(cats.last() == cats[cats.len() - 1]);
        assert forall|j: int| 0 <= j < selected(cats, f).len() implies #[trigger] selected(
            cats,
            f,
        )[j].uuid != u by {
            if j < selected(prefix, f).len() {
                assert(selected(cats, f)[j] == selected(prefix, f)[j]);
            } else {
                assert(selected(cats, f)[j] == cats.last());
            }
        }
    }
}

/// A table row passing the filter is reported by the listing.
proof fn lemma_selected_includes(cats: Seq<CategoryRowData>, f: Filter, k: int)
    requires
        0 <= k < cats.len(),
        keeps(f, cats[k]),
    ensures
        exists|j: int|
            0 <= j < selected(cats, f).len() && #[trigger] selected(cats, f)[j] == cats[k],
    decreases cats.len(),
{
    if k == cats.len() - 1 {
        assert(selected(cats, f)[selected(cats, f).len() - 1] == cats[k]);
    } else {
        let prefix = cats.drop_last();
        assert(prefix[k] == cats[k]);
        lemma_selected_includes(prefix, f, k);
        let j = choose|j: int|
            0 <= j < selected(prefix, f).len() && #[trigger] selected(prefix, f)[j] == prefix[k];
        assert(selected(cats, f)[j] == cats[k]);
    }
}

/// After `setCurrent(u)` for a present identity `u`, the
/// current-category selection holds exactly one row — the category
/// with identity `u` — and no row of any other identity.
pub proof fn lemma_set_current_selects_target(s: StoreState, u: Seq<char>, i: int)
    requires
        s.wf(),
        0 <= i < s.categories.len(),
        s.categories[i].uuid == u,
    ensures
        set_current_applied(s, u).wf(),
        selected(set_current_applied(s, u).categories, Filter::Current).len() == 1,
        selected(set_current_applied(s, u).categories, Filter::Current)[0] == (CategoryRowData {
            current: true,
            ..s.categories[i]
        }),
{
    let s1 = set_current_applied(s, u);
    assert(s1.categories[i].current);
    lemma_current_count(s1.categories);
    let c = CategoryRowData { current: true, ..s.categories[i] };
    assert forall|k: int|
        0 <= k < s1.categories.len() && keeps(Filter::Current, #[trigger] s1.categories[k])
        implies s1.categories[k] == c by {
        assert(s.categories[k].uuid == u);
        assert(k == i);
    }
    lemma_selected_only(s1.categories, Filter::Current, c);
}

/// `setCurrent(u)` for an absent identity leaves no category
/// current: the clear-all-then-set-one step never creates a second
/// flag, whatever identity it is given.
pub proof fn lemma_set_current_absent(s: StoreState, u: Seq<char>)
    requires
        s.wf(),
        !has_uuid(s.categories, u),
    ensures
        set_current_applied(s, u).wf(),
        selected(set_current_applied(s, u).categories, Filter::Current).len() == 0,
{
    let s1 = set_current_applied(s, u);
    assert forall|k: int| 0 <= k < s1.categories.len() implies !(#[trigger] s1.categories[k].current) by {
        if s.categories[k].uuid == u {
            assert(has_uuid(s.categories, u));
        }
    }
    lemma_current_count(s1.categories);
}

/// After `archive(u)`: the active listing excludes `u`; the archived
/// listing includes it (when `u` exists); and no current category
/// with identity `u` remains.
pub proof fn lemma_archive_hides(s: StoreState, u: Seq<char>)
    requires
        s.wf(),
    ensures
        archive_applied(s, u).wf(),
        forall|j: int|
            0 <= j < selected(archive_applied(s, u).categories, Filter::Active).len()
                ==> #[trigger] selected(archive_applied(s, u).categories, Filter::Active)[j].uuid
                != u,
        has_uuid(s.categories, u) ==> exists|j: int|
            0 <= j < selected(archive_applied(s, u).categories, Filter::Archived).len()
                && #[trigger] selected(archive_applied(s, u).categories, Filter::Archived)[j].uuid
                == u,
        forall|j: int|
            0 <= j < selected(archive_applied(s, u).categories, Filter::Current).len()
                ==> #[trigger] selected(archive_applied(s, u).categories, Filter::Current)[j].uuid
                != u,
{
    let s1 = archive_applied(s, u);
    lemma_selected_excludes(s1.categories, Filter::Active, u);
    lemma_selected_excludes(s1.categories, Filter::Current, u);
    if has_uuid(s.categories, u) {
        let w = choose|w: int| 0 <= w < s.categories.len() && #[trigger] s.categories[w].uuid == u;
        assert(s1.categories[w].uuid == u && s1.categories[w].archived);
        assert(keeps(Filter::Archived, s1.categories[w]));
        lemma_selected_includes(s1.categories, Filter::Archived, w);
        let j = choose|j: int|
            0 <= j < selected(s1.categories, Filter::Archived).len() && #[trigger] selected(
                s1.categories,
                Filter::Archived,
            )[j] == s1.categories[w];
        assert(selected(s1.categories, Filter::Archived)[j].uuid == u);
    }
}

/// Adding a timer changes exactly one (category, day) sum, by
/// exactly the timer's duration: aggregation is scoped to the
/// timer's own category and calendar day.
pub proof fn lemma_timer_day_scope(s: StoreState, t: TimerData, u: Seq<char>, d: int)
    ensures
        sum_for(timer_added(s, t).timers, u, d) == sum_for(s.timers, u, d) + if timer_matches(
            t,
            u,
            d,
        ) {
            t.duration
        } else {
            0
        },
{
    assert(s.timers.push(t).drop_last() =~= s.timers);
    assert(s.timers.push(t).last() == t);
}

/// A category with no matching timer on a day reports a sum of 0
/// (the listing still reports the row; see `query_post`).
pub proof fn lemma_zero_sum_without_timers(ts: Seq<TimerData>, u: Seq<char>, d: int)
    requires
        forall|i: int| 0 <= i < ts.len() ==> !timer_matches(#[trigger] ts[i], u, d),
    ensures
        sum_for(ts, u, d) == 0,
    decreases ts.len(),
{
    if ts.len() > 0 {
        let prefix = ts.drop_last();
        assert(forall|i: int| 0 <= i < prefix.len() ==> #[trigger] prefix[i] == ts[i]);
        lemma_zero_sum_without_timers(prefix, u, d);
    }
}

/// Two distinct days never share a timer: a timer contributes to the
/// sum of its own start day and to no other, so `getAll(D1)` and
/// `getAll(D2)` with `D1 != D2` aggregate disjoint sets of timers.
pub proof fn lemma_days_are_disjoint(t: TimerData, u: Seq<char>, d1: int, d2: int)
    requires
        d1 != d2,
    ensures
        !(timer_matches(t, u, d1) && timer_matches(t, u, d2)),
{
}

} // verus!
