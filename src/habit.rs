//! Habit records: a name, the day the habit was created, and the days on
//! which it was completed, with the statistics derived from them.

use crate::calendar::{today, valid_day};
use vstd::prelude::*;
use vstd::set_lib::{lemma_int_range, lemma_len_subset, set_int_range};

verus! {

/// uuid's `Uuid`, carried through as an opaque identifier.
#[verifier::external_type_specification]
#[verifier::external_body]
pub struct ExUuid(uuid::Uuid);

/// Relies on uuid's `Uuid::new_v4`: a random identifier. Nothing is
/// promised of its value.
#[verifier::external_body]
fn new_id() -> uuid::Uuid {
    uuid::Uuid::new_v4()
}

/// A habit. Days are day numbers (see `calendar`).
pub struct Habit {
    pub id: uuid::Uuid,
    pub name: String,
    pub created_at: i32,
    pub completions: Vec<i32>,
}

/// The whole collection, in display order.
pub struct AppData {
    pub habits: Vec<Habit>,
}

/// The `k` consecutive days that end with `end` are all in `s`.
pub open spec fn run_ending(s: Set<int>, end: int, k: int) -> bool {
    forall|d: int| end - k < d <= end ==> #[trigger] s.contains(d)
}

/// The day from which the current streak counts back: today if it was
/// completed, else yesterday.
pub open spec fn streak_start(s: Set<int>, today: int) -> int {
    if s.contains(today) {
        today
    } else {
        today - 1
    }
}

/// `r` is the current streak of the days `s` on `today`: the number of
/// consecutive completed days that end today, or yesterday when today is
/// not completed; zero when neither is.
pub open spec fn is_current_streak(s: Set<int>, today: int, r: int) -> bool {
    if !s.contains(today) && !s.contains(today - 1) {
        r == 0
    } else {
        run_ending(s, streak_start(s, today), r) && !s.contains(streak_start(s, today) - r)
    }
}

/// `r` is the longest run of consecutive days in `s`.
pub open spec fn is_longest_streak(s: Set<int>, r: int) -> bool {
    &&& exists|end: int| run_ending(s, end, r)
    &&& forall|end: int, k: int| #[trigger] run_ending(s, end, k) ==> k <= r
}

/// The first day of the completion-rate window: the creation day, or 90 days
/// before today if the habit is older.
pub open spec fn window_start(created_at: int, today: int) -> int {
    if created_at > today - 90 {
        created_at
    } else {
        today - 90
    }
}

/// How many of the entries of `days` lie between `lo` and `hi`, both included.
pub open spec fn count_between(days: Seq<i32>, lo: int, hi: int) -> nat
    decreases days.len(),
{
    if days.len() == 0 {
        0
    } else {
        count_between(days.drop_last(), lo, hi) + if lo <= days.last() as int <= hi {
            1nat
        } else {
            0nat
        }
    }
}

/// The completion rate in percent, rounded down, of a habit created on
/// `created_at` and completed on `days`, over its window ending `today`.
pub open spec fn completion_rate(days: Seq<i32>, created_at: int, today: int) -> int {
    let start = window_start(created_at, today);
    let total = today - start + 1;
    if total <= 0 {
        0
    } else {
        (count_between(days, start, today) as int * 100) / total
    }
}

/// A run of `k` days, all listed in `days`, is no longer than `days`.
proof fn lemma_run_within(days: Seq<i32>, end: int, k: int)
    requires
        0 <= k,
        run_ending(day_set(days), end, k),
    ensures
        k <= days.len(),
{
    let m = days.map_values(|d: i32| d as int);
    let range = set_int_range(end - k + 1, end + 1);
    assert forall|x: int| range.contains(x) implies m.to_set().contains(x) by {
        assert(day_set(days).contains(x));
        let j = choose|j: int| 0 <= j < days.len() && days[j] as int == x;
        assert(m[j] == x);
    }
    lemma_int_range(end - k + 1, end + 1);
    m.lemma_cardinality_of_set();
    vstd::seq_lib::seq_to_set_is_finite(m);
    lemma_len_subset(range, m.to_set());
}

/// Two sequences that hold the same entries list the same days.
proof fn lemma_same_days(a: Seq<i32>, b: Seq<i32>)
    requires
        a.to_multiset() == b.to_multiset(),
    ensures
        day_set(a) == day_set(b),
{
    a.to_multiset_ensures();
    b.to_multiset_ensures();
    assert forall|x: int| day_set(a).contains(x) implies day_set(b).contains(x) by {
        let j = choose|j: int| 0 <= j < a.len() && a[j] as int == x;
        assert(a.contains(a[j]));
        assert(a.to_multiset().count(a[j]) > 0);
        assert(b.to_multiset().count(a[j]) > 0);
        assert(b.contains(a[j]));
        let k = choose|k: int| 0 <= k < b.len() && b[k] == a[j];
        assert(b[k] as int == x);
    }
    assert forall|x: int| day_set(b).contains(x) implies day_set(a).contains(x) by {
        let j = choose|j: int| 0 <= j < b.len() && b[j] as int == x;
        assert(b.contains(b[j]));
        assert(b.to_multiset().count(b[j]) > 0);
        assert(a.to_multiset().count(b[j]) > 0);
        assert(a.contains(b[j]));
        let k = choose|k: int| 0 <= k < a.len() && a[k] == b[j];
        assert(a[k] as int == x);
    }
    assert(day_set(a) =~= day_set(b));
}

/// Relies on std's `slice::sort`: the same entries, in ascending order.
#[verifier::external_body]
fn sorted_days(days: &Vec<i32>) -> (r: Vec<i32>)
    ensures
        r@.to_multiset() == days@.to_multiset(),
        forall|a: int, b: int| 0 <= a < b < r@.len() ==> r@[a] <= r@[b],
{
    let mut v = days.clone();
    v.sort();
    v
}

/// The days `s` with `day` added if it was absent and taken away if it was
/// there.
pub open spec fn toggled(s: Set<int>, day: int) -> Set<int> {
    if s.contains(day) {
        s.remove(day)
    } else {
        s.insert(day)
    }
}

/// The set of days listed in `days`, as mathematical integers.
pub open spec fn day_set(days: Seq<i32>) -> Set<int> {
    Set::new(|d: int| exists|i: int| 0 <= i < days.len() && days[i] as int == d)
}

/// Whether `day` is one of `days`.
pub fn contains_day(days: &Vec<i32>, day: i64) -> (r: bool)
    ensures
        r == day_set(days@).contains(day as int),
{
    let mut i: usize = 0;
    while i < days.len()
        invariant
            0 <= i <= days@.len(),
            forall|j: int| 0 <= j < i ==> days@[j] as int != day as int,
        decreases days.len() - i,
    {
        if days[i] as i64 == day {
            assert(days@[i as int] as int == day as int);
            return true;
        }
        i += 1;
    }
    false
}

/// Appending `d` adds `d` to the listed days, and keeps them free of
/// repeats when `d` was not listed.
proof fn lemma_push_day(days: Seq<i32>, d: i32)
    ensures
        day_set(days.push(d)) == day_set(days).insert(d as int),
        days.no_duplicates() && !day_set(days).contains(d as int) ==> days.push(d).no_duplicates(),
{
    let after = days.push(d);
    assert(after[days.len() as int] == d);
    assert forall|x: int| #[trigger] day_set(after).contains(x) implies day_set(days).insert(d as int).contains(x) by {
        let k = choose|k: int| 0 <= k < after.len() && after[k] as int == x;
        if k < days.len() {
            assert(after[k] == days[k]);
        }
    }
    assert forall|x: int| day_set(days).insert(d as int).contains(x) implies #[trigger] day_set(after).contains(x) by {
        if x != d as int {
            let k = choose|k: int| 0 <= k < days.len() && days[k] as int == x;
            assert(after[k] == days[k]);
        }
    }
    assert(day_set(after) =~= day_set(days).insert(d as int));
    if days.no_duplicates() && !day_set(days).contains(d as int) {
        assert forall|a: int, b: int| 0 <= a < b < after.len() implies after[a] != after[b] by {
            if b == days.len() {
                assert(after[a] == days[a]);
                assert(day_set(days).contains(days[a] as int));
            }
        }
    }
}

/// `new` is `old` with the completion of `day` toggled, as far as the
/// completed days go; nothing else of the habit changes.
pub open spec fn habit_toggled(old: Habit, new: Habit, day: int) -> bool {
    &&& new.id == old.id
    &&& new.name@ == old.name@
    &&& new.created_at == old.created_at
    &&& old.wf() ==> new.wf()
    &&& old.wf() ==> new.completed_days() == toggled(old.completed_days(), day)
}

impl Habit {
    /// A habit is well formed when no day is recorded twice.
    pub open spec fn wf(&self) -> bool {
        self.completions@.no_duplicates()
    }

    /// The days on which the habit was completed.
    pub open spec fn completed_days(&self) -> Set<int> {
        day_set(self.completions@)
    }

    /// A new habit named `name`, created today and never completed.
    pub fn new(name: String) -> (r: Habit)
        ensures
            r.name@ == name@,
            valid_day(r.created_at as int),
            r.completions@.len() == 0,
            r.wf(),
    {
        let id = new_id();
        let created_at = today();
        Habit { id, name, created_at, completions: Vec::new() }
    }

    /// A habit as stored, each completed day kept once.
    pub fn from_stored(id: uuid::Uuid, name: String, created_at: i32, completions: Vec<i32>) -> (r: Habit)
        ensures
            r.id == id,
            r.name@ == name@,
            r.created_at == created_at,
            r.wf(),
            r.completed_days() == day_set(completions@),
    {
        let mut days: Vec<i32> = Vec::new();
        let mut i: usize = 0;
        while i < completions.len()
            invariant
                0 <= i <= completions@.len(),
                days@.no_duplicates(),
                day_set(days@) == day_set(completions@.subrange(0, i as int)),
            decreases completions@.len() - i,
        {
            let d = completions[i];
            let ghost before = days@;
            proof {
                assert(completions@.subrange(0, i + 1) =~= completions@.subrange(0, i as int).push(d));
                lemma_push_day(completions@.subrange(0, i as int), d);
                lemma_push_day(before, d);
            }
            if !contains_day(&days, d as i64) {
                days.push(d);
            } else {
                assert(day_set(before).insert(d as int) =~= day_set(before));
            }
            i += 1;
        }
        assert(completions@.subrange(0, completions@.len() as int) =~= completions@);
        Habit { id, name, created_at, completions: days }
    }

    /// Marks `day` completed if it was not, and not completed if it was.
    pub fn toggle_day(&mut self, day: i32)
        ensures
            habit_toggled(*old(self), *final(self), day as int),
            !old(self).completed_days().contains(day as int) ==> final(self).completions@ == old(self).completions@.push(day),
            old(self).completed_days().contains(day as int) ==> exists|i: int|
                0 <= i < old(self).completions@.len() && old(self).completions@[i] == day
                    && final(self).completions@ == old(self).completions@.remove(i),
    {
        let mut i: usize = 0;
        let len = self.completions.len();
        while i < len
            invariant
                len == self.completions@.len(),
                self.completions@ == old(self).completions@,
                self.id == old(self).id,
                self.name@ == old(self).name@,
                self.created_at == old(self).created_at,
                0 <= i <= len,
                forall|j: int| 0 <= j < i ==> self.completions@[j] != day,
            decreases len - i,
        {
            if self.completions[i] == day {
                let ghost before = self.completions@;
                self.completions.remove(i);
                proof {
                    let after = self.completions@;
                    if before.no_duplicates() {
                        assert(after.no_duplicates()) by {
                            assert forall|a: int, b: int| 0 <= a < b < after.len() implies after[a] != after[b] by {
                                let a2 = if a < i { a } else { a + 1 };
                                let b2 = if b < i { b } else { b + 1 };
                                assert(after[a] == before[a2]);
                                assert(after[b] == before[b2]);
                            }
                        }
                        assert(day_set(after) =~= day_set(before).remove(day as int)) by {
                            assert forall|d: int| day_set(before).remove(day as int).contains(d) implies #[trigger] day_set(after).contains(d) by {
                                let k = choose|k: int| 0 <= k < before.len() && before[k] as int == d;
                                assert(k != i);
                                if k < i {
                                    assert(after[k] == before[k]);
                                } else {
                                    assert(after[k - 1] == before[k]);
                                }
                            }
                            assert forall|d: int| #[trigger] day_set(after).contains(d) implies day_set(before).remove(day as int).contains(d) by {
                                let k = choose|k: int| 0 <= k < after.len() && after[k] as int == d;
                                let k2 = if k < i { k } else { k + 1 };
                                assert(after[k] == before[k2]);
                                assert(k2 != i);
                            }
                        }
                    }
                }
                return;
            }
            i += 1;
        }
        proof {
            lemma_push_day(self.completions@, day);
        }
        self.completions.push(day);
    }

    /// The current streak as seen on `today`.
    pub fn current_streak_at(&self, today: i32) -> (r: u32)
        requires
            self.completions@.len() <= u32::MAX,
        ensures
            is_current_streak(self.completed_days(), today as int, r as int),
    {
        let ghost s = self.completed_days();
        let start: i64 = if contains_day(&self.completions, today as i64) {
            today as i64
        } else if contains_day(&self.completions, today as i64 - 1) {
            today as i64 - 1
        } else {
            return 0;
        };
        assert(start as int == streak_start(s, today as int));
        let len = self.completions.len();
        let mut streak: u32 = 0;
        let mut current: i64 = start;
        while (streak as usize) < len && contains_day(&self.completions, current)
            invariant
                s == self.completed_days(),
                len == self.completions@.len(),
                len <= u32::MAX,
                streak <= len,
                current == start - streak,
                run_ending(s, start as int, streak as int),
            decreases len - streak,
        {
            streak += 1;
            current -= 1;
        }
        proof {
            if streak == len && s.contains(start as int - len as int) {
                assert(run_ending(s, start as int, len + 1));
                lemma_run_within(self.completions@, start as int, len + 1);
            }
        }
        streak
    }

    /// The current streak: consecutive completed days ending today, or
    /// yesterday when today is not completed yet.
    pub fn current_streak(&self) -> (r: u32)
        requires
            self.completions@.len() <= u32::MAX,
        ensures
            exists|day: int| valid_day(day) && is_current_streak(self.completed_days(), day, r as int),
    {
        let day = today();
        self.current_streak_at(day)
    }

    /// The longest run of consecutive completed days ever.
    pub fn longest_streak(&self) -> (r: u32)
        requires
            self.completions@.len() <= u32::MAX,
        ensures
            is_longest_streak(self.completed_days(), r as int),
            self.completions@.len() == 0 <==> r == 0,
    {
        let ghost s = self.completed_days();
        let v = sorted_days(&self.completions);
        proof {
            lemma_same_days(v@, self.completions@);
            broadcast use vstd::seq_lib::group_to_multiset_ensures;
            assert(v@.len() == self.completions@.to_multiset().len());
        }
        if v.len() == 0 {
            assert forall|end: int, k: int| #[trigger] run_ending(s, end, k) implies k <= 0 by {
                if k > 0 {
                    assert(s.contains(end));
                }
            }
            assert(run_ending(s, 0, 0));
            return 0;
        }
        let mut longest: u32 = 1;
        let mut current: u32 = 1;
        let ghost mut best_end: int = v@[0] as int;
        assert(s.contains(v@[0] as int));
        assert(!s.contains(v@[0] - 1)) by {
            if s.contains(v@[0] - 1) {
                let j = choose|j: int| 0 <= j < v@.len() && #[trigger] v@[j] as int == v@[0] - 1;
            }
        }
        assert forall|j: int, k: int| 0 <= j < 1 && run_ending(s, v@[j] as int, k) implies k <= 1 by {
            if k > 1 {
                assert(s.contains(v@[0] - 1));
            }
        }
        let mut i: usize = 1;
        while i < v.len()
            invariant
                1 <= i <= v@.len(),
                v@.len() <= u32::MAX,
                s == day_set(v@),
                forall|a: int, b: int| 0 <= a < b < v@.len() ==> v@[a] <= v@[b],
                1 <= current <= longest <= i,
                run_ending(s, v@[i - 1] as int, current as int),
                !s.contains(v@[i - 1] - current),
                run_ending(s, best_end, longest as int),
                forall|j: int, k: int| 0 <= j < i && #[trigger] run_ending(s, v@[j] as int, k) ==> k <= longest,
            decreases v@.len() - i,
        {
            let diff: i64 = v[i] as i64 - v[i - 1] as i64;
            assert(s.contains(v@[i as int] as int));
            if diff == 1 {
                current += 1;
                if current > longest {
                    longest = current;
                    proof {
                        best_end = v@[i as int] as int;
                    }
                }
            } else if diff > 1 {
                current = 1;
                assert(!s.contains(v@[i as int] - 1)) by {
                    if s.contains(v@[i as int] - 1) {
                        let j = choose|j: int| 0 <= j < v@.len() && #[trigger] v@[j] as int == v@[i as int] - 1;
                        if j < i {
                            assert(v@[j] <= v@[i - 1]);
                        } else {
                            assert(v@[i as int] <= v@[j]);
                        }
                    }
                }
            }
            assert forall|j: int, k: int| 0 <= j < i + 1 && #[trigger] run_ending(s, v@[j] as int, k) implies k <= longest by {
                if j == i && k > current {
                    assert(s.contains(v@[i as int] - current));
                }
            }
            i += 1;
        }
        assert forall|end: int, k: int| #[trigger] run_ending(s, end, k) implies k <= longest by {
            if k > 0 {
                assert(s.contains(end));
                let j = choose|j: int| 0 <= j < v@.len() && #[trigger] v@[j] as int == end;
                assert(run_ending(s, v@[j] as int, k));
            }
        }
        longest
    }

    /// The completion rate in percent over the window ending `today`.
    pub fn completion_percentage_at(&self, today: i32) -> (r: u32)
        requires
            self.wf(),
        ensures
            r as int == completion_rate(self.completions@, self.created_at as int, today as int),
            r <= 100,
    {
        let days = &self.completions;
        let window: i64 = today as i64 - 90;
        let start: i64 = if self.created_at as i64 > window {
            self.created_at as i64
        } else {
            window
        };
        let total: i64 = today as i64 - start + 1;
        if total <= 0 {
            return 0;
        }
        let ghost lo = start as int;
        let ghost hi = today as int;
        let mut count: u64 = 0;
        let ghost mut seen: Set<int> = Set::empty();
        let mut i: usize = 0;
        while i < days.len()
            invariant
                0 <= i <= days@.len(),
                days@.no_duplicates(),
                lo == start,
                hi == today,
                count == count_between(days@.subrange(0, i as int), lo, hi),
                count <= i,
                seen.finite(),
                seen.len() == count,
                forall|d: int| #[trigger] seen.contains(d) ==> lo <= d <= hi && exists|j: int|
                    0 <= j < i && days@[j] as int == d,
            decreases days@.len() - i,
        {
            let d = days[i];
            assert(days@.subrange(0, i + 1).drop_last() =~= days@.subrange(0, i as int));
            if start <= d as i64 && d as i64 <= today as i64 {
                assert(!seen.contains(d as int)) by {
                    if seen.contains(d as int) {
                        let j = choose|j: int| 0 <= j < i && days@[j] as int == d as int;
                        assert(days@[j] == days@[i as int]);
                    }
                }
                proof {
                    seen = seen.insert(d as int);
                }
                count += 1;
            }
            i += 1;
        }
        assert(days@.subrange(0, days@.len() as int) =~= days@);
        proof {
            assert(seen.subset_of(set_int_range(lo, hi + 1)));
            lemma_int_range(lo, hi + 1);
            lemma_len_subset(seen, set_int_range(lo, hi + 1));
        }
        let pct: i64 = (count as i64 * 100) / total;
        assert(pct <= 100) by (nonlinear_arith)
            requires
                pct as int == (count as int * 100) / (total as int),
                count as int <= total as int,
                total as int > 0,
        ;
        pct as u32
    }

    /// The completion rate in percent over the last three months, or since
    /// creation for a younger habit.
    pub fn completion_percentage(&self) -> (r: u32)
        requires
            self.wf(),
        ensures
            exists|day: int| valid_day(day) && r as int == completion_rate(self.completions@, self.created_at as int, day),
            r <= 100,
    {
        let day = today();
        self.completion_percentage_at(day)
    }

    /// Marks today completed if it was not, and not completed if it was.
    pub fn toggle_today(&mut self)
        ensures
            exists|day: int| valid_day(day) && habit_toggled(*old(self), *final(self), day),
    {
        let day = today();
        self.toggle_day(day);
    }
}

/// Toggling the same day twice in a row gives back the days on which the
/// habit was completed.
pub proof fn lemma_toggle_twice(first: Habit, second: Habit, third: Habit, day: int)
    requires
        first.wf(),
        habit_toggled(first, second, day),
        habit_toggled(second, third, day),
    ensures
        third.completed_days() == first.completed_days(),
        third.wf(),
{
    assert(toggled(toggled(first.completed_days(), day), day) =~= first.completed_days());
}

impl AppData {
    /// An empty collection.
    pub fn new() -> (r: AppData)
        ensures
            r.habits@.len() == 0,
    {
        AppData { habits: Vec::new() }
    }
}

} // verus!
