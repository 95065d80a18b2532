//! The store's semantics: an in-memory model of the database state.
//!
//! `Store` holds exactly what the two tables hold, and each operation
//! has a contract that pins the new state down completely. The SQL
//! layer issues statements whose intended effect is the corresponding
//! operation here, and the laws in `laws` are proved over the
//! transition functions of this module.

use vstd::prelude::*;

use crate::model::{Category, CategoryInfo, CategoryRow, CategoryRowData, Timer, TimerData};

verus! {

/// The closed set of row filters shared by all category listings.
/// Keeping this an enumeration (rather than free-text SQL) is what
/// rules injection out of the read path.
#[derive(Clone, Copy, PartialEq, Eq, Structural)]
pub enum Filter {
    All,
    Active,
    Archived,
    Current,
}

/// Calendar day (as a day number since the epoch) of an epoch-second
/// instant. The store compares timer instants to query dates at this
/// granularity.
pub open spec fn day_of(start_time: int) -> int {
    start_time / 86400
}

/// Does a timer belong to category `uuid` and fall on day `day`?
pub open spec fn timer_matches(t: TimerData, uuid: Seq<char>, day: int) -> bool {
    t.category_uuid == uuid && day_of(t.start_time) == day
}

/// Sum of the durations of all timers of `uuid` on `day`.
pub open spec fn sum_for(timers: Seq<TimerData>, uuid: Seq<char>, day: int) -> int
    decreases timers.len(),
{
    if timers.len() == 0 {
        0
    } else {
        sum_for(timers.drop_last(), uuid, day) + if timer_matches(
            timers.last(),
            uuid,
            day,
        ) {
            timers.last().duration
        } else {
            0
        }
    }
}

/// Every prefix sum for `uuid` on `day` fits in a 64-bit integer.
/// The engine accumulates in 64 bits and fails on the first overflow,
/// so this is exactly the condition under which aggregation succeeds.
pub open spec fn sums_fit(timers: Seq<TimerData>, uuid: Seq<char>, day: int) -> bool {
    forall|k: int|
        0 <= k <= timers.len() ==> i64::MIN <= #[trigger] sum_for(timers.take(k), uuid, day)
            <= i64::MAX
}

/// Does a row pass the filter?
pub open spec fn keeps(f: Filter, c: CategoryRowData) -> bool {
    match f {
        Filter::All => true,
        Filter::Active => !c.archived,
        Filter::Archived => c.archived,
        Filter::Current => c.current,
    }
}

/// The rows that pass the filter, in store order.
pub open spec fn selected(cats: Seq<CategoryRowData>, f: Filter) -> Seq<CategoryRowData>
    decreases cats.len(),
{
    if cats.len() == 0 {
        Seq::empty()
    } else {
        let rest = selected(cats.drop_last(), f);
        if keeps(f, cats.last()) {
            rest.push(cats.last())
        } else {
            rest
        }
    }
}

pub open spec fn has_name(cats: Seq<CategoryRowData>, name: Seq<char>) -> bool {
    exists|i: int| 0 <= i < cats.len() && #[trigger] cats[i].name == name
}

pub open spec fn has_uuid(cats: Seq<CategoryRowData>, uuid: Seq<char>) -> bool {
    exists|i: int| 0 <= i < cats.len() && #[trigger] cats[i].uuid == uuid
}

/// Mathematical view of the whole store.
#[verifier::ext_equal]
pub ghost struct StoreState {
    pub categories: Seq<CategoryRowData>,
    pub timers: Seq<TimerData>,
}

impl StoreState {
    /// The store's invariants: identities and names are unique,
    /// at most one category is current, and timer instants are
    /// non-negative epoch seconds.
    pub open spec fn wf(self) -> bool {
        &&& forall|i: int, j: int|
            0 <= i < j < self.categories.len() ==> #[trigger] self.categories[i].uuid
                != #[trigger] self.categories[j].uuid
        &&& forall|i: int, j: int|
            0 <= i < j < self.categories.len() ==> #[trigger] self.categories[i].name
                != #[trigger] self.categories[j].name
        &&& forall|i: int, j: int|
            0 <= i < j < self.categories.len() ==> !(#[trigger] self.categories[i].current
                && #[trigger] self.categories[j].current)
        &&& forall|i: int|
            0 <= i < self.timers.len() ==> #[trigger] self.timers[i].start_time >= 0
    }
}

/// A fresh row as `add` inserts it.
pub open spec fn fresh_row(uuid: Seq<char>, name: Seq<char>, icon: Seq<char>) -> CategoryRowData {
    CategoryRowData {
        uuid: uuid,
        name: name,
        icon: icon,
        archived: false,
        current: false,
        daily_target: 0,
    }
}

/// State after a successful `add(name, icon)` with identity `uuid`.
pub open spec fn add_applied(
    s: StoreState,
    uuid: Seq<char>,
    name: Seq<char>,
    icon: Seq<char>,
) -> StoreState {
    StoreState { categories: s.categories.push(fresh_row(uuid, name, icon)), timers: s.timers }
}

/// State after `setCurrent(uuid)`: the current flag is cleared
/// everywhere and set exactly on the row with identity `uuid`.
pub open spec fn set_current_applied(s: StoreState, uuid: Seq<char>) -> StoreState {
    StoreState {
        categories: Seq::new(
            s.categories.len(),
            |i: int| CategoryRowData { current: s.categories[i].uuid == uuid, ..s.categories[i] },
        ),
        timers: s.timers,
    }
}

/// State after `archive(uuid)`: the row is archived and, in the same
/// transaction, stops being current.
pub open spec fn archive_applied(s: StoreState, uuid: Seq<char>) -> StoreState {
    StoreState {
        categories: Seq::new(
            s.categories.len(),
            |i: int|
                if s.categories[i].uuid == uuid {
                    CategoryRowData { archived: true, current: false, ..s.categories[i] }
                } else {
                    s.categories[i]
                },
        ),
        timers: s.timers,
    }
}

/// State after `restore(uuid)`.
pub open spec fn restore_applied(s: StoreState, uuid: Seq<char>) -> StoreState {
    StoreState {
        categories: Seq::new(
            s.categories.len(),
            |i: int|
                if s.categories[i].uuid == uuid {
                    CategoryRowData { archived: false, ..s.categories[i] }
                } else {
                    s.categories[i]
                },
        ),
        timers: s.timers,
    }
}

/// State after a successful `rename(uuid, new_name)`.
pub open spec fn rename_applied(s: StoreState, uuid: Seq<char>, new_name: Seq<char>) -> StoreState {
    StoreState {
        categories: Seq::new(
            s.categories.len(),
            |i: int|
                if s.categories[i].uuid == uuid {
                    CategoryRowData { name: new_name, ..s.categories[i] }
                } else {
                    s.categories[i]
                },
        ),
        timers: s.timers,
    }
}

/// State after `setTarget(uuid, seconds)`.
pub open spec fn set_target_applied(s: StoreState, uuid: Seq<char>, seconds: int) -> StoreState {
    StoreState {
        categories: Seq::new(
            s.categories.len(),
            |i: int|
                if s.categories[i].uuid == uuid {
                    CategoryRowData { daily_target: seconds, ..s.categories[i] }
                } else {
                    s.categories[i]
                },
        ),
        timers: s.timers,
    }
}

/// State after `add(categoryUuid, startTime, duration)` on the timer
/// log: a plain append.
pub open spec fn timer_added(s: StoreState, t: TimerData) -> StoreState {
    StoreState { categories: s.categories, timers: s.timers.push(t) }
}

/// The annotated row a listing reports for a stored row: the stored
/// columns plus the day's duration sum.
pub open spec fn annotated(c: CategoryRowData, time: int) -> CategoryInfo {
    CategoryInfo {
        uuid: c.uuid,
        name: c.name,
        icon: c.icon,
        time: time,
        archived: c.archived,
        current: c.current,
    }
}

/// Why a store operation was refused.
#[derive(Debug, Clone, Copy, PartialEq, Eq, Structural)]
pub enum StoreError {
    /// `add` or `rename` would duplicate a category name.
    NameTaken,
    /// `add` would duplicate a category identity.
    UuidTaken,
    /// A duration sum left the 64-bit integer range.
    SumOverflow,
}

/// The in-memory model of the database state.
pub struct Store {
    pub categories: Vec<CategoryRow>,
    pub timers: Vec<Timer>,
}

pub open spec fn category_views(cats: Seq<CategoryRow>) -> Seq<CategoryRowData> {
    Seq::new(cats.len(), |i: int| cats[i]@)
}

pub open spec fn timer_views(timers: Seq<Timer>) -> Seq<TimerData> {
    Seq::new(timers.len(), |i: int| timers[i]@)
}

impl View for Store {
    type V = StoreState;

    open spec fn view(&self) -> StoreState {
        StoreState {
            categories: category_views(self.categories@),
            timers: timer_views(self.timers@),
        }
    }
}

impl Store {
    /// An empty store, as a brand-new database presents it.
    pub fn new() -> (s: Store)
        ensures
            s@.categories.len() == 0,
            s@.timers.len() == 0,
            s@.wf(),
    {
        Store { categories: Vec::new(), timers: Vec::new() }
    }
}

fn contains_name(cats: &Vec<CategoryRow>, name: &String) -> (r: bool)
    ensures
        r == has_name(category_views(cats@), name@),
{
    let ghost cv = category_views(cats@);
    let n = cats.len();
    let mut i: usize = 0;
    while i < n
        invariant
            n == cats@.len(),
            i <= n,
            cv == category_views(cats@),
            forall|k: int| 0 <= k < i ==> #[trigger] cv[k].name != name@,
        decreases n - i,
    {
        if cats[i].name == *name {
            assert(cv[i as int].name == name@);
            return true;
        }
        i = i + 1;
    }
    false
}

fn contains_uuid(cats: &Vec<CategoryRow>, uuid: &String) -> (r: bool)
    ensures
        r == has_uuid(category_views(cats@), uuid@),
{
    let ghost cv = category_views(cats@);
    let n = cats.len();
    let mut i: usize = 0;
    while i < n
        invariant
            n == cats@.len(),
            i <= n,
            cv == category_views(cats@),
            forall|k: int| 0 <= k < i ==> #[trigger] cv[k].uuid != uuid@,
        decreases n - i,
    {
        if cats[i].uuid == *uuid {
            assert(cv[i as int].uuid == uuid@);
            return true;
        }
        i = i + 1;
    }
    false
}

impl Store {
    /// `add(name, icon)` with a caller-supplied fresh identity:
    /// inserts a non-archived, non-current row with no daily target.
    /// Fails, leaving the store untouched, exactly when the name or
    /// the identity is already taken.
    pub fn add_category(&mut self, uuid: String, name: String, icon: String) -> (r: Result<
        (),
        StoreError,
    >)
        requires
            old(self)@.wf(),
        ensures
            final(self)@.wf(),
            match r {
                Ok(()) => !has_name(old(self)@.categories, name@) && !has_uuid(
                    old(self)@.categories,
                    uuid@,
                ) && final(self)@ =~= add_applied(old(self)@, uuid@, name@, icon@),
                Err(StoreError::NameTaken) => has_name(old(self)@.categories, name@)
                    && final(self)@ =~= old(self)@,
                Err(StoreError::UuidTaken) => !has_name(old(self)@.categories, name@) && has_uuid(
                    old(self)@.categories,
                    uuid@,
                ) && final(self)@ =~= old(self)@,
                Err(StoreError::SumOverflow) => false,
            },
    {
        if contains_name(&self.categories, &name) {
            return Err(StoreError::NameTaken);
        }
        if contains_uuid(&self.categories, &uuid) {
            return Err(StoreError::UuidTaken);
        }
        let row = CategoryRow {
            uuid: uuid,
            name: name,
            icon: icon,
            archived: false,
            current: false,
            daily_target: 0,
        };
        self.categories.push(row);
        proof {
            assert(self@.categories =~= old(self)@.categories.push(
                fresh_row(uuid@, name@, icon@),
            ));
            assert(self@.timers =~= old(self)@.timers);
        }
        Ok(())
    }

    /// `setCurrent(uuid)`: clears the current flag on every category
    /// and sets it on the one with identity `uuid`, as one step. On
    /// an absent identity no category is left current.
    pub fn set_current(&mut self, uuid: &String)
        requires
            old(self)@.wf(),
        ensures
            final(self)@.wf(),
            final(self)@ =~= set_current_applied(old(self)@, uuid@),
    {
        let ghost s0 = self@;
        let n = self.categories.len();
        let mut i: usize = 0;
        while i < n
            invariant
                n == self.categories@.len(),
                n == s0.categories.len(),
                i <= n,
                timer_views(self.timers@) == s0.timers,
                forall|k: int|
                    0 <= k < i ==> #[trigger] self.categories@[k]@ == set_current_applied(
                        s0,
                        uuid@,
                    ).categories[k],
                forall|k: int| i <= k < n ==> #[trigger] self.categories@[k]@ == s0.categories[k],
            decreases n - i,
        {
            let ghost pre = self.categories@;
            proof {
                assert(pre[i as int]@ == s0.categories[i as int]);
            }
            let is_target = self.categories[i].uuid == *uuid;
            self.categories[i].current = is_target;
            proof {
                assert(self.categories@[i as int]@ == set_current_applied(s0, uuid@).categories[i as int]);
                assert(forall|k: int| 0 <= k < n && k != i ==> self.categories@[k] == pre[k]);
            }
            i = i + 1;
        }
        proof {
            assert(self@.categories =~= set_current_applied(s0, uuid@).categories);
            assert(self@ =~= set_current_applied(s0, uuid@));
        }
    }

    /// `archive(uuid)`: archives the row and, in the same step,
    /// clears its current flag — an archived category cannot remain
    /// the running one.
    pub fn archive(&mut self, uuid: &String)
        requires
            old(self)@.wf(),
        ensures
            final(self)@.wf(),
            final(self)@ =~= archive_applied(old(self)@, uuid@),
    {
        let ghost s0 = self@;
        let n = self.categories.len();
        let mut i: usize = 0;
        while i < n
            invariant
                n == self.categories@.len(),
                n == s0.categories.len(),
                i <= n,
                timer_views(self.timers@) == s0.timers,
                forall|k: int|
                    0 <= k < i ==> #[trigger] self.categories@[k]@ == archive_applied(
                        s0,
                        uuid@,
                    ).categories[k],
                forall|k: int| i <= k < n ==> #[trigger] self.categories@[k]@ == s0.categories[k],
            decreases n - i,
        {
            let ghost pre = self.categories@;
            proof {
                assert(pre[i as int]@ == s0.categories[i as int]);
            }
            if self.categories[i].uuid == *uuid {
                self.categories[i].archived = true;
                self.categories[i].current = false;
            }
            proof {
                assert(self.categories@[i as int]@ == archive_applied(s0, uuid@).categories[i as int]);
                assert(forall|k: int| 0 <= k < n && k != i ==> self.categories@[k] == pre[k]);
            }
            i = i + 1;
        }
        proof {
            assert(self@.categories =~= archive_applied(s0, uuid@).categories);
            assert(self@ =~= archive_applied(s0, uuid@));
        }
    }

    /// `restore(uuid)`: clears the archived flag of the row.
    pub fn restore(&mut self, uuid: &String)
        requires
            old(self)@.wf(),
        ensures
            final(self)@.wf(),
            final(self)@ =~= restore_applied(old(self)@, uuid@),
    {
        let ghost s0 = self@;
        let n = self.categories.len();
        let mut i: usize = 0;
        while i < n
            invariant
                n == self.categories@.len(),
                n == s0.categories.len(),
                i <= n,
                timer_views(self.timers@) == s0.timers,
                forall|k: int|
                    0 <= k < i ==> #[trigger] self.categories@[k]@ == restore_applied(
                        s0,
                        uuid@,
                    ).categories[k],
                forall|k: int| i <= k < n ==> #[trigger] self.categories@[k]@ == s0.categories[k],
            decreases n - i,
        {
            let ghost pre = self.categories@;
            proof {
                assert(pre[i as int]@ == s0.categories[i as int]);
            }
            if self.categories[i].uuid == *uuid {
                self.categories[i].archived = false;
            }
            proof {
                assert(self.categories@[i as int]@ == restore_applied(s0, uuid@).categories[i as int]);
                assert(forall|k: int| 0 <= k < n && k != i ==> self.categories@[k] == pre[k]);
            }
            i = i + 1;
        }
        proof {
            assert(self@.categories =~= restore_applied(s0, uuid@).categories);
            assert(self@ =~= restore_applied(s0, uuid@));
        }
    }

    /// `setTarget(uuid, seconds)`: single-row update of the daily
    /// target; a no-op on an absent identity.
    pub fn set_target(&mut self, uuid: &String, seconds: i64)
        requires
            old(self)@.wf(),
        ensures
            final(self)@.wf(),
            final(self)@ =~= set_target_applied(old(self)@, uuid@, seconds as int),
    {
        let ghost s0 = self@;
        let n = self.categories.len();
        let mut i: usize = 0;
        while i < n
            invariant
                n == self.categories@.len(),
                n == s0.categories.len(),
                i <= n,
                timer_views(self.timers@) == s0.timers,
                forall|k: int|
                    0 <= k < i ==> #[trigger] self.categories@[k]@ == set_target_applied(
                        s0,
                        uuid@,
                        seconds as int,
                    ).categories[k],
                forall|k: int| i <= k < n ==> #[trigger] self.categories@[k]@ == s0.categories[k],
            decreases n - i,
        {
            let ghost pre = self.categories@;
            proof {
                assert(pre[i as int]@ == s0.categories[i as int]);
            }
            if self.categories[i].uuid == *uuid {
                self.categories[i].daily_target = seconds;
            }
            proof {
                assert(self.categories@[i as int]@ == set_target_applied(s0, uuid@, seconds as int).categories[i as int]);
                assert(forall|k: int| 0 <= k < n && k != i ==> self.categories@[k] == pre[k]);
            }
            i = i + 1;
        }
        proof {
            assert(self@.categories =~= set_target_applied(s0, uuid@, seconds as int).categories);
            assert(self@ =~= set_target_applied(s0, uuid@, seconds as int));
        }
    }

    /// `rename(uuid, new_name)`: single-row update of the name.
    /// Fails, leaving the store untouched, exactly when the row
    /// exists and another row already carries `new_name` (names are
    /// unique store-wide); a no-op success on an absent identity.
    pub fn rename(&mut self, uuid: &String, new_name: String) -> (r: Result<(), StoreError>)
        requires
            old(self)@.wf(),
        ensures
            final(self)@.wf(),
            match r {
                Ok(()) => !(has_uuid(old(self)@.categories, uuid@) && name_taken_by_other(
                    old(self)@.categories,
                    new_name@,
                    uuid@,
                )) && final(self)@ =~= rename_applied(old(self)@, uuid@, new_name@),
                Err(StoreError::NameTaken) => has_uuid(old(self)@.categories, uuid@)
                    && name_taken_by_other(old(self)@.categories, new_name@, uuid@)
                    && final(self)@ =~= old(self)@,
                Err(StoreError::UuidTaken) => false,
                Err(StoreError::SumOverflow) => false,
            },
    {
        let ghost s0 = self@;
        if contains_uuid(&self.categories, uuid) && conflicts_with_other(
            &self.categories,
            &new_name,
            uuid,
        ) {
            assert(self@ =~= s0);
            return Err(StoreError::NameTaken);
        }
        let n = self.categories.len();
        let mut i: usize = 0;
        while i < n
            invariant
                n == self.categories@.len(),
                n == s0.categories.len(),
                i <= n,
                timer_views(self.timers@) == s0.timers,
                forall|k: int|
                    0 <= k < i ==> #[trigger] self.categories@[k]@ == rename_applied(
                        s0,
                        uuid@,
                        new_name@,
                    ).categories[k],
                forall|k: int| i <= k < n ==> #[trigger] self.categories@[k]@ == s0.categories[k],
            decreases n - i,
        {
            let ghost pre = self.categories@;
            proof {
                assert(pre[i as int]@ == s0.categories[i as int]);
            }
            if self.categories[i].uuid == *uuid {
                self.categories[i].name = new_name.clone();
            }
            proof {
                assert(self.categories@[i as int]@ == rename_applied(s0, uuid@, new_name@).categories[i as int]);
                assert(forall|k: int| 0 <= k < n && k != i ==> self.categories@[k] == pre[k]);
            }
            i = i + 1;
        }
        proof {
            assert(self@.categories =~= rename_applied(s0, uuid@, new_name@).categories);
            assert(self@ =~= rename_applied(s0, uuid@, new_name@));
        }
        Ok(())
    }

    /// Appends a completed timer to the log. Timers are immutable
    /// once recorded; the identity is not validated against the
    /// category table (declared, not checked, referential integrity).
    pub fn add_timer(&mut self, category_uuid: String, start_time: i64, duration: i64)
        requires
            old(self)@.wf(),
            start_time >= 0,
        ensures
            final(self)@.wf(),
            final(self)@ =~= timer_added(
                old(self)@,
                TimerData {
                    category_uuid: category_uuid@,
                    start_time: start_time as int,
                    duration: duration as int,
                },
            ),
    {
        let ghost s0 = self@;
        let t = Timer { category_uuid: category_uuid, start_time: start_time, duration: duration };
        let ghost tv = t@;
        self.timers.push(t);
        proof {
            assert(self@.timers =~= s0.timers.push(tv));
            assert(self@.categories =~= s0.categories);
            assert(self@ =~= timer_added(s0, tv));
        }
    }
}

/// Would renaming the row with identity `uuid` to `name` collide with
/// a different row's name?
pub open spec fn name_taken_by_other(
    cats: Seq<CategoryRowData>,
    name: Seq<char>,
    uuid: Seq<char>,
) -> bool {
    exists|i: int|
        0 <= i < cats.len() && #[trigger] cats[i].name == name && cats[i].uuid != uuid
}

/// One step of `sum_for` along a prefix of the timer log.
proof fn lemma_sum_step(ts: Seq<TimerData>, uuid: Seq<char>, day: int, k: int)
    requires
        0 <= k < ts.len(),
    ensures
        sum_for(ts.take(k + 1), uuid, day) == sum_for(ts.take(k), uuid, day) + if timer_matches(
            ts[k],
            uuid,
            day,
        ) {
            ts[k].duration
        } else {
            0
        },
{
    assert(ts.take(k + 1).drop_last() =~= ts.take(k));
    assert(ts.take(k + 1).last() == ts[k]);
}

/// One step of `selected` along a prefix of the category table.
proof fn lemma_selected_step(cats: Seq<CategoryRowData>, f: Filter, k: int)
    requires
        0 <= k < cats.len(),
    ensures
        selected(cats.take(k + 1), f) == if keeps(f, cats[k]) {
            selected(cats.take(k), f).push(cats[k])
        } else {
            selected(cats.take(k), f)
        },
{
    assert(cats.take(k + 1).drop_last() =~= cats.take(k));
    assert(cats.take(k + 1).last() == cats[k]);
}

/// What `selected` keeps: every reported row passes the filter and
/// comes from the table, and every table row that passes the filter
/// is reported.
pub proof fn lemma_selected_elements(cats: Seq<CategoryRowData>, f: Filter)
    ensures
        forall|j: int| 0 <= j < selected(cats, f).len() ==> keeps(f, #[trigger] selected(cats, f)[j]),
        forall|j: int|
            0 <= j < selected(cats, f).len() ==> exists|i: int|
                0 <= i < cats.len() && cats[i] == #[trigger] selected(cats, f)[j],
        forall|i: int|
            0 <= i < cats.len() && keeps(f, #[trigger] cats[i]) ==> exists|j: int|
                0 <= j < selected(cats, f).len() && selected(cats, f)[j] == cats[i],
    decreases cats.len(),
{
    if cats.len() > 0 {
        let prefix = cats.drop_last();
        lemma_selected_elements(prefix, f);
        assert(forall|i: int| 0 <= i < prefix.len() ==> #[trigger] prefix[i] == cats[i]);
        assert forall|i: int| 0 <= i < cats.len() && keeps(f, #[trigger] cats[i]) implies exists|
            j: int,
        | 0 <= j < selected(cats, f).len() && selected(cats, f)[j] == cats[i] by {
            if i < cats.len() - 1 {
                let j0 = choose|j0: int|
                    0 <= j0 < selected(prefix, f).len() && selected(prefix, f)[j0] == prefix[i];
                assert(selected(cats, f)[j0] == cats[i]);
            } else {
                assert(selected(cats, f)[selected(cats, f).len() - 1] == cats[i]);
            }
        }
    }
}

/// Is the instant on the given epoch day? Timer instants are
/// non-negative epoch seconds.
fn same_day(start_time: i64, day: i64) -> (r: bool)
    requires
        start_time >= 0,
    ensures
        r == (day_of(start_time as int) == day as int),
{
    let d = (start_time as u64) / 86400;
    proof {
        assert(d <= i64::MAX as u64);
    }
    (d as i64) == day
}

/// Duration sum of one category's timers on one day, accumulating in
/// 64 bits as the engine does; reports an overflow instead of a sum
/// as soon as a prefix leaves the representable range.
fn sum_durations(timers: &Vec<Timer>, uuid: &String, day: i64) -> (r: Option<i64>)
    requires
        forall|i: int| 0 <= i < timers@.len() ==> #[trigger] timers@[i]@.start_time >= 0,
    ensures
        ({
            let tv = timer_views(timers@);
            match r {
                Some(v) => sums_fit(tv, uuid@, day as int) && v == sum_for(tv, uuid@, day as int),
                None => !sums_fit(tv, uuid@, day as int),
            }
        }),
{
    let ghost tv = timer_views(timers@);
    let n = timers.len();
    let mut acc: i64 = 0;
    let mut i: usize = 0;
    while i < n
        invariant
            n == timers@.len(),
            tv == timer_views(timers@),
            tv.len() == n,
            i <= n,
            forall|i2: int| 0 <= i2 < timers@.len() ==> #[trigger] timers@[i2]@.start_time >= 0,
            acc == sum_for(tv.take(i as int), uuid@, day as int),
            forall|k: int|
                0 <= k <= i ==> i64::MIN <= #[trigger] sum_for(tv.take(k), uuid@, day as int)
                    <= i64::MAX,
        decreases n - i,
    {
        proof {
            assert(timers@[i as int]@ == tv[i as int]);
            lemma_sum_step(tv, uuid@, day as int, i as int);
        }
        let t = &timers[i];
        let matched = if t.category_uuid == *uuid {
            same_day(t.start_time, day)
        } else {
            false
        };
        proof {
            assert(matched == timer_matches(tv[i as int], uuid@, day as int));
        }
        if matched {
            match acc.checked_add(t.duration) {
                Some(a2) => {
                    acc = a2;
                },
                None => {
                    proof {
                        assert(sum_for(tv.take(i as int + 1), uuid@, day as int) == acc
                            + tv[i as int].duration);
                        assert(!(i64::MIN <= sum_for(tv.take(i as int + 1), uuid@, day as int)
                            <= i64::MAX));
                        assert(!sums_fit(tv, uuid@, day as int));
                    }
                    return None;
                },
            }
        }
        i = i + 1;
    }
    proof {
        assert(tv.take(n as int) =~= tv);
    }
    Some(acc)
}

impl Store {
    /// The one query shape every category listing shares: the rows
    /// that pass `filter`, in store order, each annotated with its
    /// duration sum for `day` (0 when no timer matches). Fails only
    /// when some reported category's sum leaves the 64-bit range.
    #[verifier::rlimit(60)]
    pub fn query_info(&self, filter: Filter, day: i64) -> (r: Result<Vec<Category>, StoreError>)
        requires
            self@.wf(),
        ensures
            ({
                let sel = selected(self@.categories, filter);
                let tv = self@.timers;
                match r {
                    Ok(rows) => {
                        &&& rows@.len() == sel.len()
                        &&& forall|j: int|
                            0 <= j < sel.len() ==> #[trigger] rows@[j]@ == annotated(
                                sel[j],
                                sum_for(tv, sel[j].uuid, day as int),
                            )
                        &&& forall|j: int|
                            0 <= j < sel.len() ==> sums_fit(tv, #[trigger] sel[j].uuid, day as int)
                    },
                    Err(StoreError::SumOverflow) => exists|j: int|
                        0 <= j < sel.len() && !sums_fit(tv, #[trigger] sel[j].uuid, day as int),
                    Err(_) => false,
                }
            }),
    {
        let ghost cv = self@.categories;
        let ghost tv = self@.timers;
        let n = self.categories.len();
        let mut rows: Vec<Category> = Vec::new();
        let mut i: usize = 0;
        while i < n
            invariant
                self@.wf(),
                n == self.categories@.len(),
                cv == self@.categories,
                tv == self@.timers,
                cv.len() == n,
                i <= n,
                rows@.len() == selected(cv.take(i as int), filter).len(),
                forall|j: int|
                    0 <= j < rows@.len() ==> #[trigger] rows@[j]@ == annotated(
                        selected(cv.take(i as int), filter)[j],
                        sum_for(tv, selected(cv.take(i as int), filter)[j].uuid, day as int),
                    ),
                forall|j: int|
                    0 <= j < rows@.len() ==> sums_fit(
                        tv,
                        #[trigger] selected(cv.take(i as int), filter)[j].uuid,
                        day as int,
                    ),
            decreases n - i,
        {
            proof {
                assert(self.categories@[i as int]@ == cv[i as int]);
                lemma_selected_step(cv, filter, i as int);
            }
            let c = &self.categories[i];
            let keep = match filter {
                Filter::All => true,
                Filter::Active => !c.archived,
                Filter::Archived => c.archived,
                Filter::Current => c.current,
            };
            proof {
                assert(keep == keeps(filter, cv[i as int]));
            }
            if keep {
                proof {
                    assert forall|i2: int|
                        0 <= i2 < self.timers@.len() implies #[trigger] self.timers@[i2]@.start_time
                            >= 0 by {
                        assert(tv[i2] == self.timers@[i2]@);
                        assert(tv[i2].start_time >= 0);
                    }
                }
                match sum_durations(&self.timers, &c.uuid, day) {
                    Some(time) => {
                        let row = Category {
                            uuid: c.uuid.clone(),
                            name: c.name.clone(),
                            icon: c.icon.clone(),
                            time: time,
                            archived: c.archived,
                            current: c.current,
                        };
                        rows.push(row);
                    },
                    None => {
                        proof {
                            lemma_selected_elements(cv, filter);
                            let j = choose|j: int|
                                0 <= j < selected(cv, filter).len() && selected(cv, filter)[j]
                                    == cv[i as int];
                            assert(!sums_fit(tv, selected(cv, filter)[j].uuid, day as int));
                        }
                        return Err(StoreError::SumOverflow);
                    },
                }
            }
            i = i + 1;
        }
        proof {
            assert(cv.take(n as int) =~= cv);
        }
        Ok(rows)
    }

    /// `getAll(date)`: every category with its day's duration sum.
    pub fn get_all(&self, day: i64) -> (r: Result<Vec<Category>, StoreError>)
        requires
            self@.wf(),
        ensures
            query_post(self@, Filter::All, day as int, r),
    {
        self.query_info(Filter::All, day)
    }

    /// `getActive(date)`: the non-archived categories with sums.
    pub fn get_active(&self, day: i64) -> (r: Result<Vec<Category>, StoreError>)
        requires
            self@.wf(),
        ensures
            query_post(self@, Filter::Active, day as int, r),
    {
        self.query_info(Filter::Active, day)
    }

    /// `getArchived(date)`: the archived categories with sums.
    pub fn get_archived(&self, day: i64) -> (r: Result<Vec<Category>, StoreError>)
        requires
            self@.wf(),
        ensures
            query_post(self@, Filter::Archived, day as int, r),
    {
        self.query_info(Filter::Archived, day)
    }

    /// `getCurrent()`: the single category whose current flag is set,
    /// with its duration sum for `day`, or nothing when no category
    /// is current.
    pub fn get_current(&self, day: i64) -> (r: Result<Option<Category>, StoreError>)
        requires
            self@.wf(),
        ensures
            ({
                let sel = selected(self@.categories, Filter::Current);
                match r {
                    Ok(opt) => match opt {
                        Some(c) => sel.len() == 1 && c@ == annotated(
                            sel[0],
                            sum_for(self@.timers, sel[0].uuid, day as int),
                        ) && sums_fit(self@.timers, sel[0].uuid, day as int),
                        None => sel.len() == 0,
                    },
                    Err(StoreError::SumOverflow) => exists|j: int|
                        0 <= j < sel.len() && !sums_fit(
                            self@.timers,
                            #[trigger] sel[j].uuid,
                            day as int,
                        ),
                    Err(_) => false,
                }
            }),
    {
        proof {
            lemma_current_count(self@.categories);
        }
        let mut rows = match self.query_info(Filter::Current, day) {
            Ok(rows) => rows,
            Err(e) => {
                return Err(e);
            },
        };
        if rows.len() == 0 {
            Ok(None)
        } else {
            Ok(Some(rows.remove(0)))
        }
    }
}

/// Shared contract of the three listings: on success, one row per
/// selected category, in store order, annotated with the day's sum;
/// an overflow report exactly when some selected sum does not fit.
pub open spec fn query_post(
    s: StoreState,
    filter: Filter,
    day: int,
    r: Result<Vec<Category>, StoreError>,
) -> bool {
    let sel = selected(s.categories, filter);
    let tv = s.timers;
    match r {
        Ok(rows) => {
            &&& rows@.len() == sel.len()
            &&& forall|j: int|
                0 <= j < sel.len() ==> #[trigger] rows@[j]@ == annotated(
                    sel[j],
                    sum_for(tv, sel[j].uuid, day),
                )
            &&& forall|j: int| 0 <= j < sel.len() ==> sums_fit(tv, #[trigger] sel[j].uuid, day)
        },
        Err(StoreError::SumOverflow) => exists|j: int|
            0 <= j < sel.len() && !sums_fit(tv, #[trigger] sel[j].uuid, day),
        Err(_) => false,
    }
}

/// With at most one current flag set, the current-filtered selection
/// has exactly one row when some category is current, none otherwise.
pub proof fn lemma_current_count(cats: Seq<CategoryRowData>)
    requires
        forall|i: int, j: int|
            0 <= i < j < cats.len() ==> !(#[trigger] cats[i].current && #[trigger] cats[j].current),
    ensures
        selected(cats, Filter::Current).len() == if exists|i: int|
            0 <= i < cats.len() && #[trigger] cats[i].current {
            1int
        } else {
            0int
        },
    decreases cats.len(),
{
    if cats.len() > 0 {
        let prefix = cats.drop_last();
        assert(forall|i: int| 0 <= i < prefix.len() ==> #[trigger] prefix[i] == cats[i]);
        lemma_current_count(prefix);
        if cats.last().current {
            assert(forall|i: int| 0 <= i < prefix.len() ==> !(#[trigger] prefix[i].current));
            assert(cats[cats.len() - 1].current);
        } else {
            if exists|i: int| 0 <= i < cats.len() && #[trigger] cats[i].current {
                let w = choose|i: int| 0 <= i < cats.len() && #[trigger] cats[i].current;
                assert(prefix[w].current);
            }
        }
    }
}

fn conflicts_with_other(cats: &Vec<CategoryRow>, name: &String, uuid: &String) -> (r: bool)
    ensures
        r == name_taken_by_other(category_views(cats@), name@, uuid@),
{
    let ghost cv = category_views(cats@);
    let n = cats.len();
    let mut i: usize = 0;
    while i < n
        invariant
            n == cats@.len(),
            i <= n,
            cv == category_views(cats@),
            forall|k: int|
                0 <= k < i ==> !(#[trigger] cv[k].name == name@ && cv[k].uuid != uuid@),
        decreases n - i,
    {
        if cats[i].name == *name && !(cats[i].uuid == *uuid) {
            assert(cv[i as int].name == name@ && cv[i as int].uuid != uuid@);
            return true;
        }
        i = i + 1;
    }
    false
}

} // verus!
