//! Git activity: what the recent commits of the watched repositories add up
//! to, the run of days with commits, and how long ago the last one was. The
//! repositories are read by the caller, which hands over, per repository and
//! newest first, each commit's time (seconds since the Unix epoch) and local
//! day (days from the common era).
use vstd::prelude::*;
use std::collections::HashSet;
use crate::clock::{now_timestamp, FIRST_DAY, FIRST_TIMESTAMP, LAST_DAY, LAST_TIMESTAMP};
use crate::text::{ago_text, time_ago_text};

verus! {

broadcast use vstd::std_specs::hash::group_hash_axioms;

/// Days that a streak counts back over: the days reached from `start`.
pub open spec fn run_of(days: Set<i32>, start: int, n: int) -> bool {
    &&& n >= 0
    &&& forall|k: int| 0 <= k < n ==> #[trigger] days.contains((start - k) as i32)
    &&& (start - n < FIRST_DAY || !days.contains((start - n) as i32))
}

/// Where a streak is counted from: today, or yesterday when today has no commit
/// yet (today itself when it is the first day there is).
pub open spec fn streak_start(days: Set<i32>, today: int) -> int {
    if days.contains(today as i32) || today == FIRST_DAY {
        today
    } else {
        today - 1
    }
}

/// The number of consecutive days with commits, ending today or, when today has
/// none yet, yesterday.
pub fn calculate_streak(commit_dates: &HashSet<i32>, today: i32) -> (streak: u32)
    requires
        FIRST_DAY <= today <= LAST_DAY,
    ensures
        run_of(commit_dates@, streak_start(commit_dates@, today as int), streak as int),
{
    let mut check: i32 = today;
    if !commit_dates.contains(&check) && check > FIRST_DAY {
        check = check - 1;
    }
    let ghost start = check as int;
    assert(start == streak_start(commit_dates@, today as int));
    let mut streak: u32 = 0;
    loop
        invariant_except_break
            FIRST_DAY <= check <= start,
            start <= LAST_DAY,
            streak == start - check,
            forall|k: int| 0 <= k < streak ==> #[trigger] commit_dates@.contains((start - k) as i32),
        ensures
            run_of(commit_dates@, start, streak as int),
        decreases check - FIRST_DAY,
    {
        if !commit_dates.contains(&check) {
            break;
        }
        streak += 1;
        if check == FIRST_DAY {
            break;
        }
        check -= 1;
    }
    streak
}

/// How many of a repository's commits, newest first, come before the first
/// one from before `cutoff`.
pub open spec fn kept_len(cs: Seq<(i64, i32)>, cutoff: int) -> nat
    decreases cs.len(),
{
    if cs.len() == 0 || cs[0].1 < cutoff {
        0
    } else {
        1 + kept_len(cs.drop_first(), cutoff)
    }
}

/// The commits that count: from each repository in turn, its newest commits up
/// to the first one from before `cutoff`.
pub open spec fn recent_commits(repos: Seq<Seq<(i64, i32)>>, cutoff: int) -> Seq<(i64, i32)>
    decreases repos.len(),
{
    if repos.len() == 0 {
        seq![]
    } else {
        repos[0].take(kept_len(repos[0], cutoff) as int) + recent_commits(repos.drop_first(), cutoff)
    }
}

/// How many of the commits are from `day`.
pub open spec fn count_on(cs: Seq<(i64, i32)>, day: int) -> nat
    decreases cs.len(),
{
    if cs.len() == 0 {
        0
    } else {
        (if cs[0].1 == day { 1nat } else { 0nat }) + count_on(cs.drop_first(), day)
    }
}

/// The later of two optional times.
pub open spec fn later(a: Option<i64>, b: Option<i64>) -> Option<i64> {
    match (a, b) {
        (None, _) => b,
        (_, None) => a,
        (Some(x), Some(y)) => Some(if y > x { y } else { x }),
    }
}

/// The time of the latest commit, if any.
pub open spec fn latest(cs: Seq<(i64, i32)>) -> Option<i64>
    decreases cs.len(),
{
    if cs.len() == 0 {
        None
    } else {
        later(Some(cs[0].0), latest(cs.drop_first()))
    }
}

/// The days with a commit.
pub open spec fn days_of(cs: Seq<(i64, i32)>) -> Set<i32>
    decreases cs.len(),
{
    if cs.len() == 0 {
        Set::empty()
    } else {
        days_of(cs.drop_first()).insert(cs[0].1)
    }
}

/// The commits of the last thirty days, counted back from `today`.
pub open spec fn last_month(repos: Seq<Vec<(i64, i32)>>, today: int) -> Seq<(i64, i32)> {
    recent_commits(repos.map_values(|v: Vec<(i64, i32)>| v@), today - 30)
}

/// A repository's newest commits, as long as each is from `cutoff` or later,
/// are all kept.
proof fn lemma_kept_covers(cs: Seq<(i64, i32)>, cutoff: int, j: int)
    requires
        0 <= j < cs.len(),
        forall|k: int| 0 <= k <= j ==> #[trigger] cs[k].1 >= cutoff,
    ensures
        kept_len(cs, cutoff) > j,
    decreases j,
{
    if j > 0 {
        let rest = cs.drop_first();
        assert forall|k: int| 0 <= k <= j - 1 implies #[trigger] rest[k].1 >= cutoff by {
            assert(rest[k] == cs[k + 1]);
        }
        lemma_kept_covers(rest, cutoff, j - 1);
    }
}

/// Every kept commit is from `cutoff` or later.
proof fn lemma_kept_recent(cs: Seq<(i64, i32)>, cutoff: int)
    ensures
        kept_len(cs, cutoff) <= cs.len(),
        forall|k: int| 0 <= k < kept_len(cs, cutoff) ==> #[trigger] cs[k].1 >= cutoff,
    decreases cs.len(),
{
    if cs.len() > 0 && cs[0].1 >= cutoff {
        let rest = cs.drop_first();
        lemma_kept_recent(rest, cutoff);
        assert forall|k: int| 0 <= k < kept_len(cs, cutoff) implies #[trigger] cs[k].1 >= cutoff by {
            if k > 0 {
                assert(cs[k] == rest[k - 1]);
            }
        }
    }
}

proof fn lemma_recent_contains(repos: Seq<Seq<(i64, i32)>>, cutoff: int, r: int, j: int)
    requires
        0 <= r < repos.len(),
        0 <= j < repos[r].len(),
        forall|k: int| 0 <= k <= j ==> #[trigger] repos[r][k].1 >= cutoff,
    ensures
        recent_commits(repos, cutoff).contains(repos[r][j]),
    decreases r,
{
    let first = repos[0].take(kept_len(repos[0], cutoff) as int);
    let rest = recent_commits(repos.drop_first(), cutoff);
    lemma_kept_len_bound(repos[0], cutoff);
    if r == 0 {
        lemma_kept_covers(repos[0], cutoff, j);
        assert((first + rest)[j] == repos[0][j]);
    } else {
        lemma_recent_contains(repos.drop_first(), cutoff, r - 1, j);
        let i = choose|i: int| 0 <= i < rest.len() && rest[i] == repos[r][j];
        assert((first + rest)[first.len() + i] == repos[r][j]);
    }
}

proof fn lemma_recent_in_window(repos: Seq<Seq<(i64, i32)>>, cutoff: int)
    ensures
        forall|i: int| 0 <= i < recent_commits(repos, cutoff).len() ==> #[trigger] recent_commits(repos, cutoff)[i].1 >= cutoff,
    decreases repos.len(),
{
    if repos.len() > 0 {
        let first = repos[0].take(kept_len(repos[0], cutoff) as int);
        let rest = recent_commits(repos.drop_first(), cutoff);
        lemma_kept_recent(repos[0], cutoff);
        lemma_recent_in_window(repos.drop_first(), cutoff);
        assert forall|i: int| 0 <= i < (first + rest).len() implies #[trigger] (first + rest)[i].1 >= cutoff by {
            if i >= first.len() {
                assert((first + rest)[i] == rest[i - first.len()]);
            }
        }
    }
}

/// The statistics read exactly the last thirty days: every commit of the last
/// month is read (each of a repository's newest commits, as long as they are
/// all from thirty days ago or later), and nothing older than thirty days is.
pub proof fn lemma_last_month_window(repos: Seq<Vec<(i64, i32)>>, today: int)
    ensures
        forall|i: int|
            0 <= i < last_month(repos, today).len() ==> #[trigger] last_month(repos, today)[i].1 >= today - 30,
        forall|r: int, j: int|
            0 <= r < repos.len() && 0 <= j < repos[r]@.len() && (forall|k: int|
                0 <= k <= j ==> #[trigger] repos[r]@[k].1 >= today - 30) ==> last_month(repos, today).contains(
                #[trigger] repos[r]@[j],
            ),
{
    let views = repos.map_values(|v: Vec<(i64, i32)>| v@);
    lemma_recent_in_window(views, today - 30);
    assert forall|r: int, j: int|
        0 <= r < repos.len() && 0 <= j < repos[r]@.len() && (forall|k: int|
            0 <= k <= j ==> #[trigger] repos[r]@[k].1 >= today - 30) implies last_month(repos, today).contains(
        #[trigger] repos[r]@[j],
    ) by {
        assert(views[r] == repos[r]@);
        assert forall|k: int| 0 <= k <= j implies #[trigger] views[r][k].1 >= today - 30 by {
            assert(views[r][k] == repos[r]@[k]);
        }
        lemma_recent_contains(views, today - 30, r, j);
    }
}

/// What the loop keeps while it reads the commits: how many are from today,
/// the latest time and the days seen.
type Tally = (nat, Option<i64>, Set<i32>);

/// The tally after one more commit `(time, day)`.
spec fn tally_step(t: Tally, c: (i64, i32), today: int) -> Tally {
    (t.0 + if c.1 == today { 1nat } else { 0nat }, later(t.1, Some(c.0)), t.2.insert(c.1))
}

/// The tally after a repository's commits, up to the first one from before `cutoff`.
spec fn tally_repo(t: Tally, cs: Seq<(i64, i32)>, cutoff: int, today: int) -> Tally
    decreases cs.len(),
{
    if cs.len() == 0 || cs[0].1 < cutoff {
        t
    } else {
        tally_repo(tally_step(t, cs[0], today), cs.drop_first(), cutoff, today)
    }
}

/// The tally after every repository in turn.
spec fn tally_all(t: Tally, repos: Seq<Seq<(i64, i32)>>, cutoff: int, today: int) -> Tally
    decreases repos.len(),
{
    if repos.len() == 0 {
        t
    } else {
        tally_all(tally_repo(t, repos[0], cutoff, today), repos.drop_first(), cutoff, today)
    }
}

/// `later` is associative.
proof fn lemma_later_assoc(a: Option<i64>, b: Option<i64>, c: Option<i64>)
    ensures
        later(later(a, b), c) == later(a, later(b, c)),
{
}

/// Counting, the latest time and the days split over a concatenation.
proof fn lemma_concat(a: Seq<(i64, i32)>, b: Seq<(i64, i32)>, day: int)
    ensures
        count_on(a + b, day) == count_on(a, day) + count_on(b, day),
        latest(a + b) == later(latest(a), latest(b)),
        days_of(a + b) == days_of(a).union(days_of(b)),
    decreases a.len(),
{
    if a.len() == 0 {
        assert(a + b =~= b);
        assert(days_of(a).union(days_of(b)) =~= days_of(b));
    } else {
        assert((a + b).drop_first() =~= a.drop_first() + b);
        lemma_concat(a.drop_first(), b, day);
        lemma_later_assoc(Some(a[0].0), latest(a.drop_first()), latest(b));
        assert(days_of(a + b) =~= days_of(a).union(days_of(b)));
    }
}

/// No more commits are kept than there are.
proof fn lemma_kept_len_bound(cs: Seq<(i64, i32)>, cutoff: int)
    ensures
        kept_len(cs, cutoff) <= cs.len(),
    decreases cs.len(),
{
    if cs.len() > 0 && cs[0].1 >= cutoff {
        lemma_kept_len_bound(cs.drop_first(), cutoff);
    }
}

/// Reading a repository adds its kept commits to the tally.
proof fn lemma_tally_repo(t: Tally, cs: Seq<(i64, i32)>, cutoff: int, today: int)
    ensures
        ({
            let k = cs.take(kept_len(cs, cutoff) as int);
            tally_repo(t, cs, cutoff, today) == (t.0 + count_on(k, today), later(t.1, latest(k)), t.2.union(days_of(k)))
        }),
    decreases cs.len(),
{
    let k = cs.take(kept_len(cs, cutoff) as int);
    if cs.len() == 0 || cs[0].1 < cutoff {
        assert(k =~= Seq::<(i64, i32)>::empty());
        assert(t.2.union(days_of(k)) =~= t.2);
    } else {
        let rest = cs.drop_first();
        let k2 = rest.take(kept_len(rest, cutoff) as int);
        lemma_kept_len_bound(rest, cutoff);
        lemma_tally_repo(tally_step(t, cs[0], today), rest, cutoff, today);
        assert(k.drop_first() =~= k2);
        assert(k[0] == cs[0]);
        lemma_later_assoc(t.1, Some(cs[0].0), latest(k2));
        assert(t.2.insert(cs[0].1).union(days_of(k2)) =~= t.2.union(days_of(k)));
    }
}

/// Reading every repository adds the recent commits to the tally.
proof fn lemma_tally_all(t: Tally, repos: Seq<Seq<(i64, i32)>>, cutoff: int, today: int)
    ensures
        ({
            let r = recent_commits(repos, cutoff);
            tally_all(t, repos, cutoff, today) == (t.0 + count_on(r, today), later(t.1, latest(r)), t.2.union(days_of(r)))
        }),
    decreases repos.len(),
{
    let r = recent_commits(repos, cutoff);
    if repos.len() == 0 {
        assert(t.2.union(days_of(r)) =~= t.2);
    } else {
        let k = repos[0].take(kept_len(repos[0], cutoff) as int);
        let rest = recent_commits(repos.drop_first(), cutoff);
        lemma_tally_repo(t, repos[0], cutoff, today);
        lemma_tally_all(tally_repo(t, repos[0], cutoff, today), repos.drop_first(), cutoff, today);
        lemma_concat(k, rest, today);
        lemma_later_assoc(t.1, latest(k), latest(rest));
        assert(t.2.union(days_of(k)).union(days_of(rest)) =~= t.2.union(days_of(r)));
    }
}

/// Statistics about git activity.
#[derive(Debug)]
pub struct GitStats {
    /// Commits made today.
    pub commits_today: u32,
    /// Consecutive days with commits.
    pub current_streak: u32,
    /// Best streak ever (kept elsewhere).
    pub best_streak: u32,
    /// Time of the last commit, in seconds since the Unix epoch.
    pub last_commit: Option<i64>,
    /// Whether any repository is watched.
    pub in_git_repo: bool,
    /// Number of repositories watched.
    pub repo_count: usize,
    /// Names of the watched repositories.
    pub repo_names: Vec<String>,
}

impl Default for GitStats {
    fn default() -> (s: GitStats)
        ensures
            s.commits_today == 0,
            s.current_streak == 0,
            s.best_streak == 0,
            s.last_commit is None,
            !s.in_git_repo,
            s.repo_count == 0,
            s.repo_names@.len() == 0,
    {
        GitStats {
            commits_today: 0,
            current_streak: 0,
            best_streak: 0,
            last_commit: None,
            in_git_repo: false,
            repo_count: 0,
            repo_names: Vec::new(),
        }
    }
}

/// Adds one repository's commits, newest first, up to the first from before
/// `cutoff`, to the running tally.
fn tally_repository(
    cs: &Vec<(i64, i32)>,
    cutoff: i32,
    today: i32,
    commits_today: &mut u32,
    last_commit: &mut Option<i64>,
    days: &mut HashSet<i32>,
    Ghost(limit): Ghost<nat>,
)
    requires
        tally_repo(
            (*old(commits_today) as nat, *old(last_commit), old(days)@),
            cs@,
            cutoff as int,
            today as int,
        ).0 <= limit,
        limit <= u32::MAX,
    ensures
        ({
            let t = tally_repo(
                (*old(commits_today) as nat, *old(last_commit), old(days)@),
                cs@,
                cutoff as int,
                today as int,
            );
            &&& *final(commits_today) as nat == t.0
            &&& *final(last_commit) == t.1
            &&& final(days)@ == t.2
        }),
{
    let ghost goal = tally_repo(
        (*commits_today as nat, *last_commit, days@),
        cs@,
        cutoff as int,
        today as int,
    );
    let mut j: usize = 0;
    assert(cs@.subrange(0, cs@.len() as int) =~= cs@);
    while j < cs.len()
        invariant_except_break
            j <= cs@.len(),
            goal == tally_repo(
                (*commits_today as nat, *last_commit, days@),
                cs@.subrange(j as int, cs@.len() as int),
                cutoff as int,
                today as int,
            ),
            goal.0 <= limit,
            limit <= u32::MAX,
        ensures
            goal == (*commits_today as nat, *last_commit, days@),
        decreases cs@.len() - j,
    {
        let ghost rest = cs@.subrange(j as int, cs@.len() as int);
        let (time, day) = cs[j];
        if day < cutoff {
            break;
        }
        let ghost before = (*commits_today as nat, *last_commit, days@);
        assert(rest.drop_first() =~= cs@.subrange(j + 1, cs@.len() as int));
        proof {
            lemma_tally_repo_grows(tally_step(before, (time, day), today as int), rest.drop_first(), cutoff as int, today as int);
        }
        if day == today {
            *commits_today = *commits_today + 1;
        }
        *last_commit = match *last_commit {
            Some(l) => if time > l { Some(time) } else { Some(l) },
            None => Some(time),
        };
        days.insert(day);
        j += 1;
    }
    proof {
        if j == cs@.len() {
            assert(cs@.subrange(j as int, cs@.len() as int).len() == 0);
        }
    }
}

/// A tally only grows as commits are added.
proof fn lemma_tally_repo_grows(t: Tally, cs: Seq<(i64, i32)>, cutoff: int, today: int)
    ensures
        t.0 <= tally_repo(t, cs, cutoff, today).0,
    decreases cs.len(),
{
    if cs.len() > 0 && cs[0].1 >= cutoff {
        lemma_tally_repo_grows(tally_step(t, cs[0], today), cs.drop_first(), cutoff, today);
    }
}

/// A tally only grows over more repositories.
proof fn lemma_tally_all_grows(t: Tally, repos: Seq<Seq<(i64, i32)>>, cutoff: int, today: int)
    ensures
        t.0 <= tally_all(t, repos, cutoff, today).0,
    decreases repos.len(),
{
    if repos.len() > 0 {
        lemma_tally_repo_grows(t, repos[0], cutoff, today);
        lemma_tally_all_grows(tally_repo(t, repos[0], cutoff, today), repos.drop_first(), cutoff, today);
    }
}

/// Whether the commits of `today` among those of the last thirty days (see
/// `stats_from_commits`) can be counted in a `u32`.
pub fn today_count_fits(repos: &Vec<Vec<(i64, i32)>>, today: i32) -> (r: bool)
    requires
        FIRST_DAY + 30 <= today,
    ensures
        r == (count_on(last_month(repos@, today as int), today as int) <= u32::MAX),
{
    let cutoff = today - 30;
    let ghost views = repos@.map_values(|v: Vec<(i64, i32)>| v@);
    let ghost t0: Tally = (0, None, Set::empty());
    let ghost goal = tally_all(t0, views, cutoff as int, today as int);
    proof {
        lemma_tally_all(t0, views, cutoff as int, today as int);
    }
    let mut count: u64 = 0;
    let ghost mut t: Tally = t0;
    let mut i: usize = 0;
    assert(views.subrange(0, views.len() as int) =~= views);
    while i < repos.len()
        invariant
            i <= repos@.len(),
            views == repos@.map_values(|v: Vec<(i64, i32)>| v@),
            cutoff == today - 30,
            t.0 == count,
            count <= u32::MAX,
            goal.0 == count_on(last_month(repos@, today as int), today as int),
            tally_all(t, views.subrange(i as int, views.len() as int), cutoff as int, today as int) == goal,
        decreases repos@.len() - i,
    {
        let ghost rest = views.subrange(i as int, views.len() as int);
        assert(rest[0] == repos@[i as int]@);
        assert(rest.drop_first() =~= views.subrange(i + 1, views.len() as int));
        let ghost others = rest.drop_first();
        let cs = &repos[i];
        let mut j: usize = 0;
        assert(cs@.subrange(0, cs@.len() as int) =~= cs@);
        while j < cs.len()
            invariant_except_break
                j <= cs@.len(),
                cs@ == rest[0],
                t.0 == count,
                count <= u32::MAX,
                goal.0 == count_on(last_month(repos@, today as int), today as int),
                goal == tally_all(
                    tally_repo(t, cs@.subrange(j as int, cs@.len() as int), cutoff as int, today as int),
                    others,
                    cutoff as int,
                    today as int,
                ),
            ensures
                t.0 == count,
                count <= u32::MAX,
                goal == tally_all(t, others, cutoff as int, today as int),
            decreases cs@.len() - j,
        {
            let ghost sub = cs@.subrange(j as int, cs@.len() as int);
            let (time, day) = cs[j];
            if day < cutoff {
                break;
            }
            assert(sub.drop_first() =~= cs@.subrange(j + 1, cs@.len() as int));
            proof {
                t = tally_step(t, (time, day), today as int);
            }
            if day == today {
                count = count + 1;
                if count > u32::MAX as u64 {
                    proof {
                        lemma_tally_repo_grows(t, sub.drop_first(), cutoff as int, today as int);
                        lemma_tally_all_grows(
                            tally_repo(t, sub.drop_first(), cutoff as int, today as int),
                            others,
                            cutoff as int,
                            today as int,
                        );
                    }
                    return false;
                }
            }
            j += 1;
        }
        proof {
            if j == cs@.len() {
                assert(cs@.subrange(j as int, cs@.len() as int).len() == 0);
            }
        }
        i += 1;
    }
    assert(views.subrange(i as int, views.len() as int).len() == 0);
    true
}

/// The statistics for the watched repositories: `repos` holds each
/// repository's commits newest first, `repo_names` the names to show. Only
/// commits of the last thirty days count; with no repository nothing does.
pub fn stats_from_commits(repos: &Vec<Vec<(i64, i32)>>, repo_names: Vec<String>, today: i32) -> (s: GitStats)
    requires
        FIRST_DAY + 30 <= today <= LAST_DAY,
        count_on(last_month(repos@, today as int), today as int) <= u32::MAX,
    ensures
        repos@.len() == 0 ==> !s.in_git_repo && s.repo_count == 0 && s.repo_names@.len() == 0
            && s.commits_today == 0 && s.current_streak == 0 && s.last_commit is None,
        repos@.len() > 0 ==> {
            let recent = last_month(repos@, today as int);
            &&& s.in_git_repo
            &&& s.repo_count == repos@.len()
            &&& s.repo_names@ == repo_names@
            &&& s.commits_today == count_on(recent, today as int)
            &&& s.last_commit == latest(recent)
            &&& run_of(days_of(recent), streak_start(days_of(recent), today as int), s.current_streak as int)
        },
        s.best_streak == 0,
{
    if repos.len() == 0 {
        return GitStats::default();
    }
    let cutoff = today - 30;
    let ghost views = repos@.map_values(|v: Vec<(i64, i32)>| v@);
    let ghost goal = tally_all((0, None, Set::empty()), views, cutoff as int, today as int);
    proof {
        lemma_tally_all((0, None, Set::empty()), views, cutoff as int, today as int);
        assert(Set::<i32>::empty().union(days_of(last_month(repos@, today as int))) =~= days_of(last_month(repos@, today as int)));
        assert(later(None, latest(last_month(repos@, today as int))) == latest(last_month(repos@, today as int)));
    }
    let ghost limit = goal.0;
    let mut commits_today: u32 = 0;
    let mut last_commit: Option<i64> = None;
    let mut days: HashSet<i32> = HashSet::new();
    let mut i: usize = 0;
    assert(views.subrange(0, views.len() as int) =~= views);
    while i < repos.len()
        invariant
            i <= repos@.len(),
            views == repos@.map_values(|v: Vec<(i64, i32)>| v@),
            cutoff == today - 30,
            limit == goal.0,
            limit <= u32::MAX,
            tally_all(
                (commits_today as nat, last_commit, days@),
                views.subrange(i as int, views.len() as int),
                cutoff as int,
                today as int,
            ) == goal,
        decreases repos@.len() - i,
    {
        let ghost before = (commits_today as nat, last_commit, days@);
        let ghost rest = views.subrange(i as int, views.len() as int);
        assert(rest[0] == repos@[i as int]@);
        assert(rest.drop_first() =~= views.subrange(i + 1, views.len() as int));
        proof {
            lemma_tally_all_grows(tally_repo(before, rest[0], cutoff as int, today as int), rest.drop_first(), cutoff as int, today as int);
        }
        tally_repository(&repos[i], cutoff, today, &mut commits_today, &mut last_commit, &mut days, Ghost(limit));
        i += 1;
    }
    assert(views.subrange(i as int, views.len() as int).len() == 0);
    let streak = calculate_streak(&days, today);
    GitStats {
        commits_today,
        current_streak: streak,
        best_streak: 0,
        last_commit,
        in_git_repo: true,
        repo_count: repos.len(),
        repo_names,
    }
}

/// A repository's head is new when none was known for it or it has moved.
pub fn is_new_head(last: Option<&String>, current: &String) -> (r: bool)
    ensures
        r == match last {
            Some(old_head) => old_head@ != current@,
            None => true,
        },
{
    match last {
        Some(old_head) => !(*old_head == *current),
        None => true,
    }
}

/// How long ago `last` was at time `now` ("never" when there is none).
pub open spec fn time_ago_at(last: Option<i64>, now: int) -> Seq<char> {
    match last {
        Some(t) => ago_text(now - t),
        None => "never"@,
    }
}

/// How long ago `last` was at time `now`, both in seconds since the Unix epoch.
pub fn time_ago_between(last: Option<i64>, now: i64) -> (r: String)
    requires
        last matches Some(t) ==> i64::MIN <= now - t <= i64::MAX,
    ensures
        r@ == time_ago_at(last, now as int),
{
    match last {
        Some(t) => time_ago_text(now - t),
        None => {
            proof {
                reveal_strlit("never");
            }
            String::from_str("never")
        },
    }
}

/// The instant lies within the range of `chrono`'s date and time.
pub open spec fn valid_time(last: Option<i64>) -> bool {
    last matches Some(t) ==> FIRST_TIMESTAMP <= t <= LAST_TIMESTAMP
}

/// How long ago `last` was, by the clock now.
pub fn format_time_ago(last: Option<i64>) -> (r: String)
    requires
        valid_time(last),
    ensures
        exists|now: int| 0 <= now <= LAST_TIMESTAMP && r@ == time_ago_at(last, now),
{
    let now = now_timestamp();
    time_ago_between(last, now)
}

impl GitStats {
    /// How long ago the last commit was, by the clock now.
    pub fn last_commit_ago(&self) -> (r: String)
        requires
            valid_time(self.last_commit),
        ensures
            exists|now: int| 0 <= now <= LAST_TIMESTAMP && r@ == time_ago_at(self.last_commit, now),
    {
        format_time_ago(self.last_commit)
    }
}

} // verus!
