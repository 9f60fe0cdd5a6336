//! What the crate remembers between sessions and what it derives from it:
//! happiness from today's commits, the weekday streak, per-project and
//! per-day commit counts, and the high-score tables.
use vstd::prelude::*;
use rand::rngs::ThreadRng;
use crate::clock::{
    local_iso_week, local_today, now_timestamp, FIRST_DAY, LAST_DAY, LAST_TIMESTAMP, UNIX_EPOCH_EVE,
};
use crate::environment::{style_of_index, GroundStyle};
use crate::mood::{boost_happiness, boosted};
use crate::rng::thread_rng;
use crate::text::{decimal, lemma_seq_lt_transitive, push_decimal, seq_lt, str_lt};

verus! {

/// A commit seen while the app was running.
#[derive(Debug, Clone)]
pub struct TrackedCommit {
    /// When the commit was detected, in seconds since the Unix epoch.
    pub timestamp: i64,
    /// Local calendar date when the commit was detected, as days from the
    /// common era (0001-01-01 is day 1).
    pub date: i32,
    /// Git commit hash (for deduplication).
    pub commit_hash: String,
    /// Project identifier (remote URL or absolute path).
    pub project_id: String,
    /// Project display name (folder name).
    pub project_name: String,
}

/// Happiness for `n` commits today (`n` at most 20): the curve
/// `round(100 * (1 - e^(-4n/20)) / (1 - e^(-4)))`, which rises fast at first
/// and flattens towards 100.
pub open spec fn happiness_curve(n: int) -> int {
    if n <= 0 { 0 }
    else if n == 1 { 18 } else if n == 2 { 34 } else if n == 3 { 46 } else if n == 4 { 56 }
    else if n == 5 { 64 } else if n == 6 { 71 } else if n == 7 { 77 } else if n == 8 { 81 }
    else if n == 9 { 85 } else if n == 10 { 88 } else if n == 11 { 91 } else if n == 12 { 93 }
    else if n == 13 { 94 } else if n == 14 { 96 } else if n == 15 { 97 } else if n == 16 { 98 }
    else if n == 17 { 98 } else if n == 18 { 99 } else { 100 }
}

/// Happiness (0-100) from the number of commits made today; commits beyond 20
/// add nothing.
pub fn calculate_happiness_from_commits(commits: u32) -> (h: u8)
    ensures
        h == happiness_curve(commits as int),
{
    let table: [u8; 21] = [0, 18, 34, 46, 56, 64, 71, 77, 81, 85, 88, 91, 93, 94, 96, 97, 98, 98, 99, 100, 100];
    let capped: usize = if commits > 20 { 20 } else { commits as usize };
    let h = table[capped];
    assert(h == happiness_curve(commits as int)) by {
        assert(table@[capped as int] == h);
    }
    h
}

/// Happiness never goes down as commits go up.
pub proof fn lemma_happiness_monotone(a: int, b: int)
    requires
        a <= b,
    ensures
        happiness_curve(a) <= happiness_curve(b),
{
}

/// Happiness stays between 0 and 100, is 0 exactly without commits, and is full
/// from 19 commits on.
pub proof fn lemma_happiness_range(n: int)
    ensures
        0 <= happiness_curve(n) <= 100,
        happiness_curve(n) == 0 <==> n <= 0,
        n >= 19 ==> happiness_curve(n) == 100,
{
}

/// Gains are fastest early: no later commit adds more than the first one.
pub proof fn lemma_happiness_first_gain_largest(n: int)
    requires
        n >= 0,
    ensures
        happiness_curve(n + 1) - happiness_curve(n) <= happiness_curve(1) - happiness_curve(0),
{
}

/// Day of the week, 0 for Monday to 6 for Sunday (day 1 was a Monday).
pub open spec fn weekday_index(day: int) -> int {
    (day - 1) % 7
}

/// Saturday or Sunday.
pub open spec fn is_weekend_day(day: int) -> bool {
    weekday_index(day) >= 5
}

/// Whether a day (days from the common era) falls on a weekend.
pub fn is_weekend(day: i32) -> (r: bool)
    ensures
        r == is_weekend_day(day as int),
{
    let w = weekday_from_monday(day);
    w >= 5
}

/// Day of the week of a day, 0 for Monday to 6 for Sunday.
pub fn weekday_from_monday(day: i32) -> (w: u32)
    ensures
        w == weekday_index(day as int),
{
    let t: i64 = day as i64 - 1 + 2_800_000_000;
    let w = t % 7;
    assert(w == (day - 1) % 7) by (nonlinear_arith)
        requires
            t == day - 1 + 2_800_000_000,
            t >= 0,
            w == t % 7,
    ;
    w as u32
}

/// The number of commits in the history made on `day`.
pub open spec fn commits_on(history: Seq<TrackedCommit>, day: int) -> nat
    decreases history.len(),
{
    if history.len() == 0 {
        0
    } else {
        commits_on(history.drop_last(), day) + if history.last().date == day { 1nat } else { 0nat }
    }
}

/// Whether the history holds a commit made on `day`.
pub open spec fn committed_on(history: Seq<TrackedCommit>, day: int) -> bool {
    exists|i: int| 0 <= i < history.len() && #[trigger] history[i].date == day
}

/// The commits made on a day (as `u32`, the way the count is reported).
pub fn count_commits_on(history: &[TrackedCommit], day: i32) -> (n: u32)
    ensures
        n == commits_on(history@, day as int) as u32,
{
    let mut count: usize = 0;
    let mut i: usize = 0;
    while i < history.len()
        invariant
            i <= history@.len(),
            count == commits_on(history@.take(i as int), day as int),
            count <= i,
        decreases history@.len() - i,
    {
        assert(history@.take(i + 1).drop_last() == history@.take(i as int));
        if history[i].date == day {
            count += 1;
        }
        i += 1;
    }
    assert(history@.take(history@.len() as int) == history@);
    count as u32
}

/// Total commits made today across all projects.
pub fn get_today_commit_count(history: &[TrackedCommit]) -> (n: u32)
    ensures
        exists|today: int| UNIX_EPOCH_EVE <= today <= LAST_DAY && n == commits_on(history@, today) as u32,
{
    let today = local_today();
    count_commits_on(history, today)
}

/// The streak counted walking back from `day` with `streak` days counted so far:
/// a day with a commit adds one, an uncommitted weekend day is skipped, an
/// uncommitted weekday ends the walk; the walk also ends after the first day of
/// the calendar and once the count passes 365.
pub open spec fn streak_walk(history: Seq<TrackedCommit>, day: int, streak: int) -> int
    decreases day - FIRST_DAY,
{
    if day < FIRST_DAY {
        streak
    } else {
        let counted = if committed_on(history, day) {
            streak + 1
        } else {
            streak
        };
        if !committed_on(history, day) && !is_weekend_day(day) {
            streak
        } else if day == FIRST_DAY || counted > 365 {
            counted
        } else {
            streak_walk(history, day - 1, counted)
        }
    }
}

/// The calendar behind the streak: 1970-01-01 was a Thursday, the days of the
/// week follow one another round a cycle of seven, and the weekend is
/// Saturday and Sunday.
pub proof fn lemma_calendar(day: int)
    ensures
        weekday_index(719163) == 3,
        0 <= weekday_index(day) < 7,
        weekday_index(day + 1) == (weekday_index(day) + 1) % 7,
        weekday_index(day + 7) == weekday_index(day),
        is_weekend_day(day) <==> (weekday_index(day) == 5 || weekday_index(day) == 6),
{
}

/// A weekday (Monday to Friday) without a commit ends the walk: the days
/// before it are not looked at.
pub proof fn lemma_streak_stops_at_missed_weekday(history: Seq<TrackedCommit>, day: int, streak: int)
    requires
        FIRST_DAY <= day,
        !committed_on(history, day),
        0 <= weekday_index(day) < 5,
    ensures
        streak_walk(history, day, streak) == streak,
{
}

/// Two histories with the same commit days after a weekday `d` that neither
/// has a commit on walk alike from any day on or after `d`.
proof fn lemma_walk_agrees(h1: Seq<TrackedCommit>, h2: Seq<TrackedCommit>, d: int, day: int, streak: int)
    requires
        FIRST_DAY <= d <= day,
        forall|x: int| d < x <= day ==> committed_on(h1, x) == committed_on(h2, x),
        !committed_on(h1, d),
        !committed_on(h2, d),
        0 <= weekday_index(d) < 5,
    ensures
        streak_walk(h1, day, streak) == streak_walk(h2, day, streak),
    decreases day - d,
{
    if day > d {
        let counted = if committed_on(h1, day) { streak + 1 } else { streak };
        lemma_walk_agrees(h1, h2, d, day - 1, counted);
    }
}

/// Without any commit, a walk ends with the count it started from.
proof fn lemma_walk_without_commits(h: Seq<TrackedCommit>, day: int, streak: int)
    requires
        forall|x: int| !committed_on(h, x),
    ensures
        streak_walk(h, day, streak) == streak,
    decreases day - FIRST_DAY,
{
    if day >= FIRST_DAY && day != FIRST_DAY && is_weekend_day(day) {
        lemma_walk_without_commits(h, day - 1, streak);
    }
}

/// A weekday without a commit breaks the streak for good: the streak as of a
/// later day is the same whether or not the commits up to that weekday are
/// in the history.
pub proof fn lemma_streak_ignores_commits_before_missed_weekday(history: Seq<TrackedCommit>, d: int, today: int)
    requires
        FIRST_DAY <= d < today,
        0 <= weekday_index(d) < 5,
        !committed_on(history, d),
    ensures
        streak_as_of(history, today) == streak_as_of(history.filter(|c: TrackedCommit| c.date > d), today),
{
    let pred = |c: TrackedCommit| c.date > d;
    let h2 = history.filter(pred);
    history.lemma_filter_len(pred);
    assert forall|x: int| #[trigger] committed_on(h2, x) == (x > d && committed_on(history, x)) by {
        if committed_on(h2, x) {
            let i = choose|i: int| 0 <= i < h2.len() && #[trigger] h2[i].date == x;
            history.lemma_filter_pred(pred, i);
            assert(h2.contains(h2[i]));
            history.lemma_filter_contains_rev(pred, h2[i]);
            let j = choose|j: int| 0 <= j < history.len() && history[j] == h2[i];
            assert(history[j].date == x);
        }
        if x > d && committed_on(history, x) {
            let i = choose|i: int| 0 <= i < history.len() && #[trigger] history[i].date == x;
            history.lemma_filter_contains(pred, i);
            let j = choose|j: int| 0 <= j < h2.len() && h2[j] == history[i];
            assert(h2[j].date == x);
        }
    }
    if history.len() == 0 {
        assert(h2.len() == 0);
    } else if h2.len() == 0 {
        assert forall|x: int| !committed_on(h2, x) by {
            if committed_on(h2, x) {
                let i = choose|i: int| 0 <= i < h2.len() && #[trigger] h2[i].date == x;
            }
        }
        if !committed_on(history, today) && !is_weekend_day(today) {
            lemma_walk_agrees(history, h2, d, today - 1, 0);
            lemma_walk_without_commits(h2, today - 1, 0);
        } else {
            lemma_walk_agrees(history, h2, d, today, 0);
            lemma_walk_without_commits(h2, today, 0);
        }
    } else {
        if !committed_on(history, today) && !is_weekend_day(today) {
            lemma_walk_agrees(history, h2, d, today - 1, 0);
        } else {
            lemma_walk_agrees(history, h2, d, today, 0);
        }
    }
}

/// A walk never ends below the count it started from.
proof fn lemma_streak_walk_grows(history: Seq<TrackedCommit>, day: int, streak: int)
    ensures
        streak <= streak_walk(history, day, streak),
    decreases day - FIRST_DAY,
{
    if day >= FIRST_DAY && day != FIRST_DAY {
        let counted = if committed_on(history, day) { streak + 1 } else { streak };
        lemma_streak_walk_grows(history, day - 1, counted);
    }
}

/// More commit days, and a larger count so far, never make a shorter walk.
proof fn lemma_streak_walk_monotone(h1: Seq<TrackedCommit>, h2: Seq<TrackedCommit>, day: int, s1: int, s2: int)
    requires
        forall|d: int| committed_on(h1, d) ==> committed_on(h2, d),
        0 <= s1 <= s2,
        s1 <= 365,
    ensures
        streak_walk(h1, day, s1) <= streak_walk(h2, day, s2),
    decreases day - FIRST_DAY,
{
    lemma_streak_walk_grows(h2, day, s2);
    if day >= FIRST_DAY {
        let c1 = committed_on(h1, day);
        let c2 = committed_on(h2, day);
        let counted1 = if c1 { s1 + 1 } else { s1 };
        let counted2 = if c2 { s2 + 1 } else { s2 };
        if (c1 || is_weekend_day(day)) && day != FIRST_DAY && counted1 <= 365 {
            if counted2 > 365 {
                lemma_streak_walk_bound(h1, day - 1, counted1);
            } else {
                lemma_streak_walk_monotone(h1, h2, day - 1, counted1, counted2);
            }
        }
    }
}

/// Committing never lowers the streak: with one more commit in the history,
/// the streak on any day is at least what it was.
pub proof fn lemma_commit_never_lowers_streak(history: Seq<TrackedCommit>, commit: TrackedCommit, today: int)
    requires
        FIRST_DAY <= today,
    ensures
        streak_as_of(history, today) <= streak_as_of(history.push(commit), today),
{
    let h2 = history.push(commit);
    assert forall|d: int| committed_on(history, d) implies committed_on(h2, d) by {
        let i = choose|i: int| 0 <= i < history.len() && #[trigger] history[i].date == d;
        assert(h2[i] == history[i]);
    }
    assert(committed_on(h2, commit.date as int)) by {
        assert(h2[history.len() as int] == commit);
    }
    if history.len() > 0 {
        if !committed_on(history, today) && !is_weekend_day(today) {
            if today != FIRST_DAY {
                if !committed_on(h2, today) && !is_weekend_day(today) {
                    lemma_streak_walk_monotone(history, h2, today - 1, 0, 0);
                } else {
                    lemma_streak_walk_monotone(history, h2, today - 1, 0, 1);
                    lemma_streak_walk_bound(history, today - 1, 0);
                }
            }
        } else {
            lemma_streak_walk_monotone(history, h2, today, 0, 0);
        }
    } else {
        if !committed_on(h2, today) && !is_weekend_day(today) {
            if today != FIRST_DAY {
                lemma_streak_walk_grows(h2, today - 1, 0);
            }
        } else {
            lemma_streak_walk_grows(h2, today, 0);
        }
    }
}

/// The streak on `today`: weekdays need a commit to continue it, weekends are
/// optional bonus days, and a missing weekday ends it. A weekday without a commit
/// yet does not break it: the count then starts from yesterday.
pub open spec fn streak_as_of(history: Seq<TrackedCommit>, today: int) -> int {
    if history.len() == 0 {
        0
    } else if !committed_on(history, today) && !is_weekend_day(today) {
        if today == FIRST_DAY {
            0
        } else {
            streak_walk(history, today - 1, 0)
        }
    } else {
        streak_walk(history, today, 0)
    }
}

fn has_commit_on(history: &[TrackedCommit], day: i32) -> (r: bool)
    ensures
        r == committed_on(history@, day as int),
{
    let mut i: usize = 0;
    while i < history.len()
        invariant
            i <= history@.len(),
            forall|j: int| 0 <= j < i ==> history@[j].date != day,
        decreases history@.len() - i,
    {
        if history[i].date == day {
            return true;
        }
        i += 1;
    }
    false
}

proof fn lemma_streak_walk_bound(history: Seq<TrackedCommit>, day: int, streak: int)
    requires
        0 <= streak <= 365,
    ensures
        streak <= streak_walk(history, day, streak) <= 366,
    decreases day - FIRST_DAY,
{
    if day >= FIRST_DAY && day != FIRST_DAY {
        let counted = if committed_on(history, day) { streak + 1 } else { streak };
        if counted <= 365 {
            lemma_streak_walk_bound(history, day - 1, counted);
        }
    }
}

/// The streak on a given day (see `streak_as_of`).
pub fn streak_on_day(history: &[TrackedCommit], today: i32) -> (s: u32)
    requires
        FIRST_DAY <= today,
    ensures
        s == streak_as_of(history@, today as int),
{
    if history.len() == 0 {
        return 0;
    }
    let mut streak: u32 = 0;
    let mut check_date = today;
    if !has_commit_on(history, check_date) && !is_weekend(check_date) {
        if check_date == FIRST_DAY {
            return 0;
        }
        check_date = check_date - 1;
    }
    let ghost start = check_date as int;
    assert(streak_as_of(history@, today as int) == streak_walk(history@, start, 0));
    loop
        invariant
            FIRST_DAY <= check_date,
            streak <= 365,
            streak_as_of(history@, today as int) == streak_walk(history@, start, 0),
            streak_walk(history@, start, 0) == streak_walk(history@, check_date as int, streak as int),
        decreases check_date - FIRST_DAY,
    {
        proof {
            lemma_streak_walk_bound(history@, check_date as int, streak as int);
        }
        let ghost s0 = streak as int;
        let ghost d0 = check_date as int;
        let committed = has_commit_on(history, check_date);
        let weekend = is_weekend(check_date);
        let ghost counted = if committed { s0 + 1 } else { s0 };
        assert(streak_walk(history@, d0, s0) == if !committed && !weekend {
            s0
        } else if d0 == FIRST_DAY || counted > 365 {
            counted
        } else {
            streak_walk(history@, d0 - 1, counted)
        });
        if committed {
            streak += 1;
        } else if weekend {
        } else {
            return streak;
        }
        if check_date == FIRST_DAY {
            return streak;
        }
        check_date = check_date - 1;
        if streak > 365 {
            return streak;
        }
    }
}

/// The current streak, walking back from today (see `streak_as_of`).
pub fn calculate_streak_from_history(history: &[TrackedCommit]) -> (s: u32)
    ensures
        exists|today: int| UNIX_EPOCH_EVE <= today <= LAST_DAY && s == streak_as_of(history@, today),
        history@.len() == 0 ==> s == 0,
        s <= 366,
{
    let today = local_today();
    proof {
        if history@.len() > 0 {
            if !committed_on(history@, today as int) && !is_weekend_day(today as int) && today != FIRST_DAY {
                lemma_streak_walk_bound(history@, today - 1, 0);
            } else {
                lemma_streak_walk_bound(history@, today as int, 0);
            }
        }
    }
    streak_on_day(history, today)
}

/// The first day (Monday) of the week holding `day`.
pub open spec fn week_start(day: int) -> int {
    day - weekday_index(day)
}

/// Commits per day from Monday of this week up to `today`.
pub fn week_summary_on_day(history: &[TrackedCommit], today: i32) -> (days: Vec<(i32, u32)>)
    requires
        FIRST_DAY <= week_start(today as int),
    ensures
        days@.len() == weekday_index(today as int) + 1,
        forall|i: int| 0 <= i < days@.len() ==> #[trigger] days@[i] == (
            (week_start(today as int) + i) as i32,
            commits_on(history@, week_start(today as int) + i) as u32,
        ),
{
    let days_since_monday = weekday_from_monday(today);
    let monday = today - days_since_monday as i32;
    let mut daily_counts: Vec<(i32, u32)> = Vec::new();
    let mut i: i32 = 0;
    while i <= days_since_monday as i32
        invariant
            0 <= i <= 7,
            monday == week_start(today as int),
            0 <= days_since_monday <= 6,
            monday + days_since_monday == today,
            i <= days_since_monday + 1,
            daily_counts@.len() == i,
            forall|k: int| 0 <= k < i ==> #[trigger] daily_counts@[k] == (
                (week_start(today as int) + k) as i32,
                commits_on(history@, week_start(today as int) + k) as u32,
            ),
        decreases days_since_monday + 1 - i,
    {
        let date = monday + i;
        let count = count_commits_on(history, date);
        daily_counts.push((date, count));
        i += 1;
    }
    daily_counts
}

/// Commits per day for the current week, from Monday up to today.
pub fn get_week_summary(history: &[TrackedCommit]) -> (days: Vec<(i32, u32)>)
    ensures
        exists|today: int|
            {
                &&& UNIX_EPOCH_EVE <= today <= LAST_DAY
                &&& days@.len() == weekday_index(today) + 1
                &&& forall|i: int|
                    0 <= i < days@.len() ==> #[trigger] days@[i] == (
                        (week_start(today) + i) as i32,
                        commits_on(history@, week_start(today) + i) as u32,
                    )
            },
        days@.len() >= 1,
{
    let today = local_today();
    assert(0 <= weekday_index(today as int) <= 6);
    week_summary_on_day(history, today)
}


/// The number of commits on `day` for the project `id`.
pub open spec fn project_count(history: Seq<TrackedCommit>, day: int, id: Seq<char>) -> nat
    decreases history.len(),
{
    if history.len() == 0 {
        0
    } else {
        project_count(history.drop_last(), day, id) + if history.last().date == day
            && history.last().project_id@ == id {
            1nat
        } else {
            0nat
        }
    }
}

/// Commit `i` is the first one on `day` for project `id`.
pub open spec fn is_first_of(history: Seq<TrackedCommit>, day: int, id: Seq<char>, i: int) -> bool {
    &&& 0 <= i < history.len()
    &&& history[i].date == day
    &&& history[i].project_id@ == id
    &&& forall|j: int| 0 <= j < i ==> !(history[j].date == day && #[trigger] history[j].project_id@ == id)
}

/// An entry `(id, name, count)` of the per-project summary: the project's name is
/// the one of its first commit that day, and the count is its number of commits that day.
pub open spec fn project_entry_ok(history: Seq<TrackedCommit>, day: int, e: (String, String, u32)) -> bool {
    &&& exists|i: int| #[trigger] is_first_of(history, day, e.0@, i) && e.1@ == history[i].project_name@
    &&& e.2 == project_count(history, day, e.0@)
}

/// Entry `a` is listed before entry `b`: more commits first, then names in order.
pub open spec fn listed_before(a: (String, String, u32), b: (String, String, u32)) -> bool {
    a.2 > b.2 || (a.2 == b.2 && seq_lt(a.1@, b.1@))
}

proof fn lemma_listed_before_transitive(a: (String, String, u32), b: (String, String, u32), c: (String, String, u32))
    requires
        listed_before(a, b),
        listed_before(b, c),
    ensures
        listed_before(a, c),
{
    if a.2 == b.2 && b.2 == c.2 {
        lemma_seq_lt_transitive(a.1@, b.1@, c.1@);
    }
}

proof fn lemma_project_count_prefix(history: Seq<TrackedCommit>, day: int, id: Seq<char>, i: int)
    requires
        0 <= i < history.len(),
    ensures
        project_count(history.take(i + 1), day, id) == project_count(history.take(i), day, id) + if history[i].date
            == day && history[i].project_id@ == id {
            1nat
        } else {
            0nat
        },
{
    assert(history.take(i + 1).drop_last() == history.take(i));
}

proof fn lemma_project_count_bound(history: Seq<TrackedCommit>, day: int, id: Seq<char>)
    ensures
        project_count(history, day, id) <= history.len(),
    decreases history.len(),
{
    if history.len() > 0 {
        lemma_project_count_bound(history.drop_last(), day, id);
    }
}

/// Commits on `day` grouped by project: one entry `(id, name, count)` per project
/// with commits that day, most commits first and then by name.
#[verifier::spinoff_prover]
pub fn today_by_project_on_day(history: &[TrackedCommit], day: i32) -> (r: Vec<(String, String, u32)>)
    requires
        history@.len() <= u32::MAX,
    ensures
        forall|k: int| 0 <= k < r@.len() ==> project_entry_ok(history@, day as int, #[trigger] r@[k]),
        forall|k1: int, k2: int| 0 <= k1 < r@.len() && 0 <= k2 < r@.len() && k1 != k2 ==> #[trigger] r@[k1].0@ != #[trigger] r@[k2].0@,
        forall|i: int| 0 <= i < history@.len() && #[trigger] history@[i].date == day ==>
            exists|k: int| 0 <= k < r@.len() && #[trigger] r@[k].0@ == history@[i].project_id@,
        forall|k1: int, k2: int| 0 <= k1 < k2 < r@.len() ==> !listed_before(#[trigger] r@[k2], #[trigger] r@[k1]),
{
    let ghost h = history@;
    let mut groups: Vec<(String, String, u32)> = Vec::new();
    let mut i: usize = 0;
    while i < history.len()
        invariant
            h == history@,
            h.len() <= u32::MAX,
            i <= h.len(),
            forall|k: int| 0 <= k < groups@.len() ==> project_entry_ok(h.take(i as int), day as int, #[trigger] groups@[k]),
            forall|k1: int, k2: int| 0 <= k1 < groups@.len() && 0 <= k2 < groups@.len() && k1 != k2 ==> #[trigger] groups@[k1].0@ != #[trigger] groups@[k2].0@,
            forall|j: int| 0 <= j < i && #[trigger] h[j].date == day ==>
                exists|k: int| 0 <= k < groups@.len() && #[trigger] groups@[k].0@ == h[j].project_id@,
        decreases h.len() - i,
    {
        let ghost pre = h.take(i as int);
        let ghost pre1 = h.take(i + 1);
        proof {
            assert forall|id: Seq<char>| true implies project_count(pre1, day as int, id) == project_count(pre, day as int, id)
                + if h[i as int].date == day && h[i as int].project_id@ == id { 1nat } else { 0nat } by {
                lemma_project_count_prefix(h, day as int, id, i as int);
            }
            assert forall|id: Seq<char>, j: int| #[trigger] is_first_of(pre, day as int, id, j) implies is_first_of(pre1, day as int, id, j) && pre1[j] == pre[j] by {
            }
        }
        let commit = &history[i];
        if commit.date == day {
            let mut k: usize = 0;
            let mut found = false;
            while k < groups.len() && !found
                invariant
                    k <= groups@.len(),
                    found ==> k < groups@.len() && groups@[k as int].0@ == commit.project_id@,
                    forall|m: int| 0 <= m < k ==> #[trigger] groups@[m].0@ != commit.project_id@,
                decreases groups@.len() - k + if found { 0int } else { 1int },
            {
                if groups[k].0 == commit.project_id {
                    found = true;
                } else {
                    k += 1;
                }
            }
            if found {
                let ghost g0 = groups@;
                let (id, name, count) = groups.remove(k);
                proof {
                    lemma_project_count_bound(pre1, day as int, id@);
                }
                groups.insert(k, (id, name, count + 1));
                assert(groups@ =~= g0.update(k as int, (g0[k as int].0, g0[k as int].1, (g0[k as int].2 + 1) as u32)));
                assert forall|m: int| 0 <= m < groups@.len() implies project_entry_ok(pre1, day as int, #[trigger] groups@[m]) by {
                    let e = g0[m];
                    assert(project_entry_ok(pre, day as int, e));
                    let j = choose|j: int| #[trigger] is_first_of(pre, day as int, e.0@, j) && e.1@ == pre[j].project_name@;
                    assert(is_first_of(pre1, day as int, e.0@, j));
                    lemma_project_count_prefix(h, day as int, e.0@, i as int);
                    if m != k {
                        assert(g0[m].0@ != g0[k as int].0@);
                    }
                }
                assert forall|j: int| 0 <= j < i + 1 && #[trigger] h[j].date == day implies
                    exists|k2: int| 0 <= k2 < groups@.len() && #[trigger] groups@[k2].0@ == h[j].project_id@ by {
                    if j < i {
                        let k2 = choose|k2: int| 0 <= k2 < g0.len() && #[trigger] g0[k2].0@ == h[j].project_id@;
                        assert(groups@[k2].0@ == h[j].project_id@);
                    } else {
                        assert(groups@[k as int].0@ == h[j].project_id@);
                    }
                }
            } else {
                let ghost g0 = groups@;
                let id = commit.project_id.clone();
                let name = commit.project_name.clone();
                groups.push((id, name, 1));
                proof {
                    assert(pre1[i as int] == commit);
                    assert(is_first_of(pre1, day as int, commit.project_id@, i as int)) by {
                        assert forall|j: int| 0 <= j < i implies !(pre1[j].date == day && #[trigger] pre1[j].project_id@ == commit.project_id@) by {
                            if pre1[j].date == day && pre1[j].project_id@ == commit.project_id@ {
                                assert(h[j].date == day);
                                let k2 = choose|k2: int| 0 <= k2 < g0.len() && #[trigger] g0[k2].0@ == h[j].project_id@;
                                assert(g0[k2].0@ != commit.project_id@);
                            }
                        }
                    }
                    assert(project_count(pre, day as int, commit.project_id@) == 0) by {
                        if project_count(pre, day as int, commit.project_id@) > 0 {
                            lemma_count_witness(pre, day as int, commit.project_id@);
                            let j = choose|j: int| 0 <= j < pre.len() && pre[j].date == day && #[trigger] pre[j].project_id@ == commit.project_id@;
                            assert(h[j].date == day);
                            let k2 = choose|k2: int| 0 <= k2 < g0.len() && #[trigger] g0[k2].0@ == h[j].project_id@;
                            assert(g0[k2].0@ != commit.project_id@);
                        }
                    }
                }
                assert forall|m: int| 0 <= m < groups@.len() implies project_entry_ok(pre1, day as int, #[trigger] groups@[m]) by {
                    if m < g0.len() {
                        let e = g0[m];
                        assert(project_entry_ok(pre, day as int, e));
                        let j = choose|j: int| #[trigger] is_first_of(pre, day as int, e.0@, j) && e.1@ == pre[j].project_name@;
                        assert(is_first_of(pre1, day as int, e.0@, j));
                    } else {
                        assert(is_first_of(pre1, day as int, groups@[m].0@, i as int));
                    }
                }
                assert forall|j: int| 0 <= j < i + 1 && #[trigger] h[j].date == day implies
                    exists|k2: int| 0 <= k2 < groups@.len() && #[trigger] groups@[k2].0@ == h[j].project_id@ by {
                    if j < i {
                        let k2 = choose|k2: int| 0 <= k2 < g0.len() && #[trigger] g0[k2].0@ == h[j].project_id@;
                        assert(groups@[k2].0@ == h[j].project_id@);
                    } else {
                        assert(groups@[g0.len() as int].0@ == h[j].project_id@);
                    }
                }
            }
        } else {
            assert forall|m: int| 0 <= m < groups@.len() implies project_entry_ok(pre1, day as int, #[trigger] groups@[m]) by {
                let e = groups@[m];
                assert(project_entry_ok(pre, day as int, e));
                let j = choose|j: int| #[trigger] is_first_of(pre, day as int, e.0@, j) && e.1@ == pre[j].project_name@;
                assert(is_first_of(pre1, day as int, e.0@, j));
            }
        }
        i += 1;
    }
    assert(h.take(h.len() as int) == h);
    let ghost all = groups@;
    let mut sorted: Vec<(String, String, u32)> = Vec::new();
    while groups.len() > 0
        invariant
            forall|k: int| 0 <= k < all.len() ==> project_entry_ok(h, day as int, #[trigger] all[k]),
            forall|k: int| 0 <= k < groups@.len() ==> project_entry_ok(h, day as int, #[trigger] groups@[k]),
            forall|k: int| 0 <= k < sorted@.len() ==> project_entry_ok(h, day as int, #[trigger] sorted@[k]),
            forall|k1: int, k2: int| 0 <= k1 < groups@.len() && 0 <= k2 < groups@.len() && k1 != k2 ==> #[trigger] groups@[k1].0@ != #[trigger] groups@[k2].0@,
            forall|k1: int, k2: int| 0 <= k1 < sorted@.len() && 0 <= k2 < sorted@.len() && k1 != k2 ==> #[trigger] sorted@[k1].0@ != #[trigger] sorted@[k2].0@,
            forall|k1: int, k2: int| 0 <= k1 < sorted@.len() && 0 <= k2 < groups@.len() ==> #[trigger] sorted@[k1].0@ != #[trigger] groups@[k2].0@,
            forall|j: int| 0 <= j < h.len() && #[trigger] h[j].date == day ==>
                (exists|k: int| 0 <= k < groups@.len() && #[trigger] groups@[k].0@ == h[j].project_id@)
                || (exists|k: int| 0 <= k < sorted@.len() && #[trigger] sorted@[k].0@ == h[j].project_id@),
            forall|k1: int, k2: int| 0 <= k1 < k2 < sorted@.len() ==> !listed_before(#[trigger] sorted@[k2], #[trigger] sorted@[k1]),
        decreases groups@.len(),
    {
        let ghost g0 = groups@;
        let ghost s0 = sorted@;
        let e = match groups.pop() {
            Some(e) => e,
            None => (String::new(), String::new(), 0),
        };
        assert(e == g0.last());
        let mut p: usize = 0;
        let mut stop = false;
        while p < sorted.len() && !stop
            invariant
                p <= sorted@.len(),
                sorted@ == s0,
                stop ==> p < sorted@.len() && listed_before(e, sorted@[p as int]),
                forall|m: int| 0 <= m < p ==> !listed_before(e, #[trigger] sorted@[m]),
            decreases sorted@.len() - p + if stop { 0int } else { 1int },
        {
            let before = e.2 > sorted[p].2 || (e.2 == sorted[p].2 && str_lt(e.1.as_str(), sorted[p].1.as_str()));
            if before {
                stop = true;
            } else {
                p += 1;
            }
        }
        let ghost p0 = p as int;
        assert(p0 < s0.len() ==> listed_before(e, s0[p0]));
        sorted.insert(p, e);
        assert forall|k: int| 0 <= k < sorted@.len() implies #[trigger] sorted@[k] == if k < p0 {
            s0[k]
        } else if k == p0 {
            e
        } else {
            s0[k - 1]
        } by {}
        proof {
            assert forall|k1: int, k2: int| 0 <= k1 < k2 < sorted@.len() implies !listed_before(#[trigger] sorted@[k2], #[trigger] sorted@[k1]) by {
                if k1 == p0 {
                    assert(sorted@[k2] == s0[k2 - 1]);
                    if listed_before(s0[k2 - 1], e) {
                        lemma_listed_before_transitive(s0[k2 - 1], e, s0[p0]);
                        if k2 - 1 > p0 {
                            assert(!listed_before(s0[k2 - 1], s0[p0]));
                        } else {
                            crate::text::lemma_seq_lt_asymmetric(s0[p0].1@, s0[p0].1@);
                        }
                    }
                } else if k2 == p0 {
                    assert(sorted@[k1] == s0[k1]);
                    assert(!listed_before(e, s0[k1]));
                } else {
                    let a = if k1 < p0 { k1 } else { k1 - 1 };
                    let b = if k2 < p0 { k2 } else { k2 - 1 };
                    assert(sorted@[k1] == s0[a]);
                    assert(sorted@[k2] == s0[b]);
                    assert(a < b);
                    assert(!listed_before(s0[b], s0[a]));
                }
            }
            assert forall|j: int| 0 <= j < h.len() && #[trigger] h[j].date == day implies
                (exists|k: int| 0 <= k < groups@.len() && #[trigger] groups@[k].0@ == h[j].project_id@)
                || (exists|k: int| 0 <= k < sorted@.len() && #[trigger] sorted@[k].0@ == h[j].project_id@) by {
                if exists|k: int| 0 <= k < g0.len() && #[trigger] g0[k].0@ == h[j].project_id@ {
                    let k = choose|k: int| 0 <= k < g0.len() && #[trigger] g0[k].0@ == h[j].project_id@;
                    if k == g0.len() - 1 {
                        assert(sorted@[p0].0@ == h[j].project_id@);
                    } else {
                        assert(groups@[k].0@ == h[j].project_id@);
                    }
                } else {
                    let k = choose|k: int| 0 <= k < s0.len() && #[trigger] s0[k].0@ == h[j].project_id@;
                    if k < p0 {
                        assert(sorted@[k].0@ == h[j].project_id@);
                    } else {
                        assert(sorted@[k + 1].0@ == h[j].project_id@);
                    }
                }
            }
        }
    }
    sorted
}

proof fn lemma_count_witness(history: Seq<TrackedCommit>, day: int, id: Seq<char>)
    requires
        project_count(history, day, id) > 0,
    ensures
        exists|j: int| 0 <= j < history.len() && history[j].date == day && #[trigger] history[j].project_id@ == id,
    decreases history.len(),
{
    let d = history.drop_last();
    if history.last().date == day && history.last().project_id@ == id {
        assert(history[history.len() - 1].project_id@ == id);
    } else {
        lemma_count_witness(d, day, id);
        let j = choose|j: int| 0 <= j < d.len() && d[j].date == day && #[trigger] d[j].project_id@ == id;
        assert(history[j] == d[j]);
    }
}

/// The per-project summary of `day`: one entry per project with commits that
/// day (see `project_entry_ok`), no project twice, most commits first and then by name.
pub open spec fn project_summary_ok(history: Seq<TrackedCommit>, day: int, r: Seq<(String, String, u32)>) -> bool {
    &&& forall|k: int| 0 <= k < r.len() ==> project_entry_ok(history, day, #[trigger] r[k])
    &&& forall|k1: int, k2: int| 0 <= k1 < r.len() && 0 <= k2 < r.len() && k1 != k2 ==> #[trigger] r[k1].0@ != #[trigger] r[k2].0@
    &&& forall|i: int| 0 <= i < history.len() && #[trigger] history[i].date == day ==>
        exists|k: int| 0 <= k < r.len() && #[trigger] r[k].0@ == history[i].project_id@
    &&& forall|k1: int, k2: int| 0 <= k1 < k2 < r.len() ==> !listed_before(#[trigger] r[k2], #[trigger] r[k1])
}

/// Today's commits grouped by project (see `today_by_project_on_day`).
pub fn get_today_by_project(history: &[TrackedCommit]) -> (r: Vec<(String, String, u32)>)
    requires
        history@.len() <= u32::MAX,
    ensures
        exists|today: int| UNIX_EPOCH_EVE <= today <= LAST_DAY && #[trigger] project_summary_ok(history@, today, r@),
{
    let today = local_today();
    let r = today_by_project_on_day(history, today);
    assert(project_summary_ok(history@, today as int, r@));
    r
}

/// The version that saved states are written in.
pub fn default_version() -> (v: u32)
    ensures
        v == 1,
{
    1
}

/// What the app remembers between sessions.
#[derive(Debug)]
pub struct AppState {
    /// Last time the app was opened, in seconds since the Unix epoch.
    pub last_seen: i64,
    /// Current happiness level (0-100).
    pub happiness: u8,
    /// Best streak ever achieved.
    pub best_streak: u32,
    /// Total commits tracked across all sessions.
    pub total_commits_tracked: u32,
    /// Version for future migrations.
    pub version: u32,
    /// All commits tracked while the app was running.
    pub commit_history: Vec<TrackedCommit>,
    /// Time of the last commit made while the app was open.
    pub last_commit_time: Option<i64>,
    /// Current streak (consecutive weekdays with commits, weekends as bonus).
    pub current_streak: u32,
    /// Current ground style of the scenery.
    pub ground_style: GroundStyle,
    /// ISO week number in which the ground style was set.
    pub ground_style_week: u32,
    /// Best crab catch scores (highest first).
    pub minigame_best_scores: Vec<u32>,
    /// Best snake scores (highest first).
    pub snake_best_scores: Vec<u32>,
    /// Best breakout scores (highest first).
    pub breakout_best_scores: Vec<u32>,
    /// Best scores of the normal tetris mode (highest first).
    pub tetris_normal_scores: Vec<u32>,
    /// Best scores of the zen tetris mode (highest first).
    pub tetris_zen_scores: Vec<u32>,
    /// Best scores of the dig tetris mode (highest first).
    pub tetris_dig_scores: Vec<u32>,
    /// Best scores of the survival tetris mode (highest first).
    pub tetris_survival_scores: Vec<u32>,
    /// Best dash scores (highest first).
    pub dash_best_scores: Vec<u32>,
    /// Best 2048 scores (highest first).
    pub game_2048_best_scores: Vec<u32>,
    /// Best rhythm game scores (highest first).
    pub vsrg_best_scores: Vec<u32>,
}

impl Default for AppState {
    /// A first start: neutral happiness, no history, a random ground style for
    /// this week.
    fn default() -> (s: AppState)
        ensures
            0 <= s.last_seen <= LAST_TIMESTAMP,
            s.happiness == 50,
            s.best_streak == 0,
            s.total_commits_tracked == 0,
            s.version == 1,
            s.commit_history@.len() == 0,
            s.last_commit_time is None,
            s.current_streak == 0,
            exists|i: int| 0 <= i < 4 && s.ground_style == style_of_index(i),
            1 <= s.ground_style_week <= 53,
            s.minigame_best_scores@.len() == 0,
            s.snake_best_scores@.len() == 0,
            s.breakout_best_scores@.len() == 0,
            s.tetris_normal_scores@.len() == 0,
            s.tetris_zen_scores@.len() == 0,
            s.tetris_dig_scores@.len() == 0,
            s.tetris_survival_scores@.len() == 0,
            s.dash_best_scores@.len() == 0,
            s.game_2048_best_scores@.len() == 0,
            s.vsrg_best_scores@.len() == 0,
    {
        let mut rng = thread_rng();
        AppState {
            last_seen: now_timestamp(),
            happiness: 50,
            best_streak: 0,
            total_commits_tracked: 0,
            version: 1,
            commit_history: Vec::new(),
            last_commit_time: None,
            current_streak: 0,
            ground_style: GroundStyle::random(&mut rng),
            ground_style_week: local_iso_week(),
            minigame_best_scores: Vec::new(),
            snake_best_scores: Vec::new(),
            breakout_best_scores: Vec::new(),
            tetris_normal_scores: Vec::new(),
            tetris_zen_scores: Vec::new(),
            tetris_dig_scores: Vec::new(),
            tetris_survival_scores: Vec::new(),
            dash_best_scores: Vec::new(),
            game_2048_best_scores: Vec::new(),
            vsrg_best_scores: Vec::new(),
        }
    }
}

/// A commit with this hash is in the history.
pub open spec fn is_tracked(history: Seq<TrackedCommit>, hash: Seq<char>) -> bool {
    exists|i: int| 0 <= i < history.len() && #[trigger] history[i].commit_hash@ == hash
}

/// Whether a commit with this hash is in the history.
pub fn is_tracked_hash(history: &Vec<TrackedCommit>, hash: &String) -> (r: bool)
    ensures
        r == is_tracked(history@, hash@),
{
    let mut i: usize = 0;
    while i < history.len()
        invariant
            i <= history@.len(),
            forall|k: int| 0 <= k < i ==> #[trigger] history@[k].commit_hash@ != hash@,
        decreases history@.len() - i,
    {
        if history[i].commit_hash == *hash {
            return true;
        }
        i += 1;
    }
    false
}

/// The two states hold the same best-score tables.
pub open spec fn same_scores(a: &AppState, b: &AppState) -> bool {
    &&& b.minigame_best_scores@ == a.minigame_best_scores@
    &&& b.snake_best_scores@ == a.snake_best_scores@
    &&& b.breakout_best_scores@ == a.breakout_best_scores@
    &&& b.tetris_normal_scores@ == a.tetris_normal_scores@
    &&& b.tetris_zen_scores@ == a.tetris_zen_scores@
    &&& b.tetris_dig_scores@ == a.tetris_dig_scores@
    &&& b.tetris_survival_scores@ == a.tetris_survival_scores@
    &&& b.dash_best_scores@ == a.dash_best_scores@
    &&& b.game_2048_best_scores@ == a.game_2048_best_scores@
    &&& b.vsrg_best_scores@ == a.vsrg_best_scores@
}

/// `after` is `before` once the commit `commit` has been seen on `today` at
/// time `now` (`added` telling whether it was new): a commit already in the
/// history (same hash) changes nothing; otherwise it joins the history, becomes
/// the last commit, the streak is worked out again (and the best streak raised
/// to it), happiness rises by 25 (up to 100) and the total grows by one.
pub open spec fn commit_recorded(
    before: &AppState,
    commit: TrackedCommit,
    today: int,
    now: i64,
    after: &AppState,
    added: bool,
) -> bool {
    &&& added == !is_tracked(before.commit_history@, commit.commit_hash@)
    &&& is_tracked(after.commit_history@, commit.commit_hash@)
    &&& !added ==> *after == *before
    &&& added ==> {
        &&& after.commit_history@ == before.commit_history@.push(commit)
        &&& after.last_commit_time == Some(now)
        &&& after.current_streak == streak_as_of(after.commit_history@, today)
        &&& after.best_streak == if after.current_streak > before.best_streak {
            after.current_streak
        } else {
            before.best_streak
        }
        &&& after.best_streak >= after.current_streak
        &&& after.current_streak >= streak_as_of(before.commit_history@, today)
        &&& after.happiness == boosted(before.happiness as int, 25)
        &&& after.total_commits_tracked == before.total_commits_tracked + 1
        &&& after.last_seen == before.last_seen
        &&& after.version == before.version
        &&& after.ground_style == before.ground_style
        &&& after.ground_style_week == before.ground_style_week
        &&& same_scores(before, after)
    }
}

/// The project id (and name) of the commits that debug mode adds by hand.
pub open spec fn debug_project() -> Seq<char> {
    "debug"@
}

/// The commit was added by hand in debug mode.
pub open spec fn is_debug(c: TrackedCommit) -> bool {
    c.project_id@ == debug_project()
}

/// The hand-made commit of debug mode: on `date` at `timestamp`, in the debug
/// project, with the hash `debug-<serial>`.
pub open spec fn debug_commit_ok(c: TrackedCommit, date: int, timestamp: int, serial: nat) -> bool {
    &&& c.date == date
    &&& c.timestamp == timestamp
    &&& c.commit_hash@ == "debug-"@ + decimal(serial)
    &&& is_debug(c)
    &&& c.project_name@ == debug_project()
}

/// A hand-made commit for debug mode (see `debug_commit_ok`).
pub fn debug_commit(date: i32, timestamp: i64, serial: u64) -> (c: TrackedCommit)
    ensures
        debug_commit_ok(c, date as int, timestamp as int, serial as nat),
{
    let mut hash = String::from_str("debug-");
    push_decimal(&mut hash, serial);
    TrackedCommit {
        timestamp,
        date,
        commit_hash: hash,
        project_id: String::from_str("debug"),
        project_name: String::from_str("debug"),
    }
}

/// The position of the most recent debug commit in the history, if any.
fn last_debug_index(history: &Vec<TrackedCommit>) -> (r: Option<usize>)
    ensures
        match r {
            None => forall|i: int| 0 <= i < history@.len() ==> !is_debug(#[trigger] history@[i]),
            Some(i) => i < history@.len() && is_debug(history@[i as int]) && forall|j: int|
                i < j < history@.len() ==> !is_debug(#[trigger] history@[j]),
        },
{
    let marker = String::from_str("debug");
    let mut i: usize = history.len();
    while i > 0
        invariant
            i <= history@.len(),
            marker@ == debug_project(),
            forall|j: int| i <= j < history@.len() ==> !is_debug(#[trigger] history@[j]),
        decreases i,
    {
        if history[i - 1].project_id == marker {
            return Some(i - 1);
        }
        i -= 1;
    }
    None
}

impl AppState {
    /// The state after a load, on a given day: the streak and the happiness
    /// worked out again from the history, the ground style changed at random
    /// when the week has changed, and the time of the visit noted.
    pub fn refresh_on_day(&mut self, today: i32, current_week: u32, now: i64, rng: &mut ThreadRng)
        requires
            FIRST_DAY <= today,
        ensures
            final(self).current_streak == streak_as_of(old(self).commit_history@, today as int),
            final(self).happiness == happiness_curve(commits_on(old(self).commit_history@, today as int) as u32 as int),
            old(self).ground_style_week == current_week ==> final(self).ground_style == old(self).ground_style,
            old(self).ground_style_week != current_week ==> exists|i: int|
                0 <= i < 4 && final(self).ground_style == style_of_index(i),
            final(self).ground_style_week == current_week,
            final(self).last_seen == now,
            final(self).commit_history@ == old(self).commit_history@,
            final(self).best_streak == old(self).best_streak,
            final(self).total_commits_tracked == old(self).total_commits_tracked,
            final(self).version == old(self).version,
            final(self).last_commit_time == old(self).last_commit_time,
            same_scores(old(self), final(self)),
    {
        self.current_streak = streak_on_day(self.commit_history.as_slice(), today);
        let today_commits = count_commits_on(self.commit_history.as_slice(), today);
        self.happiness = calculate_happiness_from_commits(today_commits);
        if self.ground_style_week != current_week {
            self.ground_style = GroundStyle::random(rng);
            self.ground_style_week = current_week;
        }
        self.last_seen = now;
    }

    /// The state after a load, by the clock now (see `refresh_on_day`).
    pub fn refresh_on_load(&mut self)
        ensures
            exists|today: int|
                UNIX_EPOCH_EVE <= today <= LAST_DAY && final(self).current_streak == streak_as_of(
                    old(self).commit_history@,
                    today,
                ) && final(self).happiness == happiness_curve(commits_on(old(self).commit_history@, today) as u32 as int),
            1 <= final(self).ground_style_week <= 53,
            0 <= final(self).last_seen <= LAST_TIMESTAMP,
            final(self).commit_history@ == old(self).commit_history@,
            final(self).best_streak == old(self).best_streak,
            final(self).total_commits_tracked == old(self).total_commits_tracked,
            final(self).version == old(self).version,
            final(self).last_commit_time == old(self).last_commit_time,
            final(self).ground_style_week == old(self).ground_style_week ==> final(self).ground_style
                == old(self).ground_style,
            same_scores(old(self), final(self)),
    {
        let today = local_today();
        let week = local_iso_week();
        let now = now_timestamp();
        let mut rng = thread_rng();
        self.refresh_on_day(today, week, now, &mut rng);
    }

    /// A commit seen on `today` at time `now` (see `commit_recorded`); the
    /// result tells whether it was new.
    pub fn record_commit_on_day(&mut self, commit: TrackedCommit, today: i32, now: i64) -> (added: bool)
        requires
            FIRST_DAY <= today,
            !is_tracked(old(self).commit_history@, commit.commit_hash@) ==> old(self).total_commits_tracked < u32::MAX,
        ensures
            commit_recorded(old(self), commit, today as int, now, final(self), added),
    {
        if is_tracked_hash(&self.commit_history, &commit.commit_hash) {
            return false;
        }
        let ghost pushed = commit;
        proof {
            lemma_commit_never_lowers_streak(self.commit_history@, commit, today as int);
        }
        self.commit_history.push(commit);
        assert(self.commit_history@[self.commit_history@.len() - 1] == pushed);
        self.last_commit_time = Some(now);
        self.current_streak = streak_on_day(self.commit_history.as_slice(), today);
        if self.current_streak > self.best_streak {
            self.best_streak = self.current_streak;
        }
        self.happiness = boost_happiness(self.happiness, 25);
        self.total_commits_tracked = self.total_commits_tracked + 1;
        true
    }

    /// A commit seen now, by the local clock (see `record_commit_on_day`).
    pub fn record_commit(&mut self, commit: TrackedCommit) -> (added: bool)
        requires
            !is_tracked(old(self).commit_history@, commit.commit_hash@) ==> old(self).total_commits_tracked < u32::MAX,
        ensures
            added == !is_tracked(old(self).commit_history@, commit.commit_hash@),
            is_tracked(final(self).commit_history@, commit.commit_hash@),
            !added ==> *final(self) == *old(self),
            added ==> final(self).commit_history@ == old(self).commit_history@.push(commit)
                && final(self).total_commits_tracked == old(self).total_commits_tracked + 1
                && final(self).happiness == boosted(old(self).happiness as int, 25)
                && (exists|today: int|
                    UNIX_EPOCH_EVE <= today <= LAST_DAY && final(self).current_streak == streak_as_of(
                        final(self).commit_history@,
                        today,
                    ))
                && final(self).best_streak == (if final(self).current_streak > old(self).best_streak {
                    final(self).current_streak
                } else {
                    old(self).best_streak
                })
                && final(self).best_streak >= final(self).current_streak
                && (final(self).last_commit_time matches Some(t) && 0 <= t <= LAST_TIMESTAMP)
                && final(self).last_seen == old(self).last_seen
                && final(self).version == old(self).version
                && final(self).ground_style == old(self).ground_style
                && final(self).ground_style_week == old(self).ground_style_week
                && same_scores(old(self), final(self)),
    {
        let today = local_today();
        let now = now_timestamp();
        self.record_commit_on_day(commit, today, now)
    }

    /// Debug mode: a hand-made commit (see `debug_commit`, numbered by the
    /// length of the history) seen on `today` at time `now` (see
    /// `commit_recorded`); the result tells whether it was new.
    pub fn add_debug_commit_on_day(&mut self, today: i32, now: i64) -> (added: bool)
        requires
            FIRST_DAY <= today,
            old(self).total_commits_tracked < u32::MAX,
        ensures
            exists|c: TrackedCommit|
                debug_commit_ok(c, today as int, now as int, old(self).commit_history@.len())
                    && #[trigger] commit_recorded(old(self), c, today as int, now, final(self), added),
    {
        let c = debug_commit(today, now, self.commit_history.len() as u64);
        let ghost gc = c;
        let added = self.record_commit_on_day(c, today, now);
        assert(commit_recorded(old(self), gc, today as int, now, self, added));
        added
    }

    /// Debug mode: a hand-made commit seen now, by the local clock (see
    /// `add_debug_commit_on_day`).
    pub fn add_debug_commit(&mut self) -> (added: bool)
        requires
            old(self).total_commits_tracked < u32::MAX,
        ensures
            exists|today: int, now: i64, c: TrackedCommit|
                UNIX_EPOCH_EVE <= today <= LAST_DAY && 0 <= now <= LAST_TIMESTAMP && debug_commit_ok(
                    c,
                    today,
                    now as int,
                    old(self).commit_history@.len(),
                ) && #[trigger] commit_recorded(old(self), c, today, now, final(self), added),
    {
        let today = local_today();
        let now = now_timestamp();
        self.add_debug_commit_on_day(today, now)
    }

    /// Debug mode: the most recent hand-made commit leaves the history, as of
    /// `today`. Then the streak and today's happiness are worked out again from
    /// the history and the total goes down by one (not below zero). Without a
    /// hand-made commit nothing changes and the result is `false`.
    pub fn remove_debug_commit_on_day(&mut self, today: i32) -> (removed: bool)
        requires
            FIRST_DAY <= today,
        ensures
            removed == exists|i: int| 0 <= i < old(self).commit_history@.len() && is_debug(
                #[trigger] old(self).commit_history@[i],
            ),
            !removed ==> *final(self) == *old(self),
            removed ==> {
                &&& exists|i: int|
                    0 <= i < old(self).commit_history@.len() && is_debug(old(self).commit_history@[i]) && (forall|
                        j: int,
                    |
                        i < j < old(self).commit_history@.len() ==> !is_debug(
                            #[trigger] old(self).commit_history@[j],
                        )) && final(self).commit_history@ == old(self).commit_history@.remove(i)
                &&& final(self).total_commits_tracked == if old(self).total_commits_tracked > 0 {
                    old(self).total_commits_tracked - 1
                } else {
                    0
                }
                &&& final(self).current_streak == streak_as_of(final(self).commit_history@, today as int)
                &&& final(self).happiness == happiness_curve(
                    commits_on(final(self).commit_history@, today as int) as u32 as int,
                )
                &&& final(self).best_streak == old(self).best_streak
                &&& final(self).last_commit_time == old(self).last_commit_time
                &&& final(self).last_seen == old(self).last_seen
                &&& final(self).version == old(self).version
                &&& final(self).ground_style == old(self).ground_style
                &&& final(self).ground_style_week == old(self).ground_style_week
                &&& same_scores(old(self), final(self))
            },
    {
        match last_debug_index(&self.commit_history) {
            None => false,
            Some(i) => {
                self.commit_history.remove(i);
                if self.total_commits_tracked > 0 {
                    self.total_commits_tracked = self.total_commits_tracked - 1;
                }
                self.current_streak = streak_on_day(self.commit_history.as_slice(), today);
                let today_commits = count_commits_on(self.commit_history.as_slice(), today);
                self.happiness = calculate_happiness_from_commits(today_commits);
                true
            },
        }
    }

    /// Debug mode: the most recent hand-made commit leaves the history, as of
    /// the local clock's day (see `remove_debug_commit_on_day`).
    pub fn remove_debug_commit(&mut self) -> (removed: bool)
        ensures
            removed == exists|i: int| 0 <= i < old(self).commit_history@.len() && is_debug(
                #[trigger] old(self).commit_history@[i],
            ),
            !removed ==> *final(self) == *old(self),
            removed ==> exists|today: int|
                UNIX_EPOCH_EVE <= today <= LAST_DAY && final(self).current_streak == streak_as_of(
                    final(self).commit_history@,
                    today,
                ) && final(self).happiness == happiness_curve(
                    commits_on(final(self).commit_history@, today) as u32 as int,
                ),
    {
        let today = local_today();
        self.remove_debug_commit_on_day(today)
    }
}

} // verus!
