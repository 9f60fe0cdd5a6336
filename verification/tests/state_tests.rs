use chrono::{DateTime, Datelike, Local, NaiveDate, TimeZone, Timelike, Utc};
use kanitomo::clock::{FIRST_DAY, FIRST_TIMESTAMP, LAST_DAY, LAST_TIMESTAMP};
use kanitomo::environment::{GroundStyle, TimeOfDay};
use kanitomo::state::{
    calculate_happiness_from_commits, calculate_streak_from_history, count_commits_on, debug_commit, default_version,
    get_today_commit_count, get_week_summary, is_weekend, streak_on_day, today_by_project_on_day, week_summary_on_day,
    weekday_from_monday, AppState, TrackedCommit,
};

fn make_commit(date: DateTime<Local>) -> TrackedCommit {
    TrackedCommit {
        timestamp: date.timestamp(),
        date: date.date_naive().num_days_from_ce(),
        commit_hash: format!("hash_{}", date.timestamp()),
        project_id: "test-project".to_string(),
        project_name: "test".to_string(),
    }
}

fn day(y: i32, m: u32, d: u32) -> i32 {
    NaiveDate::from_ymd_opt(y, m, d).unwrap().num_days_from_ce()
}

fn commit_on(y: i32, m: u32, d: u32, hash: &str, id: &str, name: &str) -> TrackedCommit {
    TrackedCommit {
        timestamp: 0,
        date: day(y, m, d),
        commit_hash: hash.to_string(),
        project_id: id.to_string(),
        project_name: name.to_string(),
    }
}

#[test]
fn test_happiness_curve_points() {
    assert_eq!(calculate_happiness_from_commits(0), 0);
    assert_eq!(calculate_happiness_from_commits(2), 34);
    assert_eq!(calculate_happiness_from_commits(5), 64);
    assert_eq!(calculate_happiness_from_commits(10), 88);
    assert_eq!(calculate_happiness_from_commits(15), 97);
    assert_eq!(calculate_happiness_from_commits(20), 100);
    assert_eq!(calculate_happiness_from_commits(25), 100);
}

#[test]
fn test_happiness_curve_interpolation() {
    assert_eq!(calculate_happiness_from_commits(1), 18);
    assert_eq!(calculate_happiness_from_commits(8), 81);
    assert_eq!(calculate_happiness_from_commits(12), 93);
    assert_eq!(calculate_happiness_from_commits(16), 98);
}

#[test]
fn happiness_table_matches_the_curve() {
    for n in 0u32..=30 {
        let capped = (n as f32).min(20.0);
        let x = capped / 20.0;
        let expected = if n == 0 {
            0
        } else {
            let normalized = (1.0 - (-4.0 * x).exp()) / (1.0 - (-4.0f32).exp());
            (normalized * 100.0).round().clamp(0.0, 100.0) as u8
        };
        assert_eq!(calculate_happiness_from_commits(n), expected, "commits {}", n);
    }
}

#[test]
fn happiness_never_drops_with_more_commits() {
    let mut last = 0;
    for n in 0u32..40 {
        let h = calculate_happiness_from_commits(n);
        assert!(h >= last);
        last = h;
    }
}

#[test]
fn test_streak_empty_history() {
    let history: Vec<TrackedCommit> = vec![];
    assert_eq!(calculate_streak_from_history(&history), 0);
}

#[test]
fn test_streak_single_commit_today() {
    let today = Local::now();
    let history = vec![make_commit(today)];
    assert_eq!(calculate_streak_from_history(&history), 1);
}

#[test]
fn test_streak_consecutive_weekdays() {
    let mon = Local.with_ymd_and_hms(2026, 1, 19, 12, 0, 0).unwrap();
    let tue = Local.with_ymd_and_hms(2026, 1, 20, 12, 0, 0).unwrap();
    let wed = Local.with_ymd_and_hms(2026, 1, 21, 12, 0, 0).unwrap();
    let history = vec![make_commit(mon), make_commit(tue), make_commit(wed)];
    let streak = calculate_streak_from_history(&history);
    let _ = streak;
}

#[test]
fn test_streak_weekend_bonus() {
    let fri = Local.with_ymd_and_hms(2026, 1, 23, 12, 0, 0).unwrap();
    let sat = Local.with_ymd_and_hms(2026, 1, 24, 12, 0, 0).unwrap();
    let mon = Local.with_ymd_and_hms(2026, 1, 26, 12, 0, 0).unwrap();
    let history = vec![make_commit(fri), make_commit(sat), make_commit(mon)];
    let streak = calculate_streak_from_history(&history);
    let _ = streak;
}

#[test]
fn test_streak_weekend_skipped_no_break() {
    let fri = Local.with_ymd_and_hms(2026, 1, 23, 12, 0, 0).unwrap();
    let mon = Local.with_ymd_and_hms(2026, 1, 26, 12, 0, 0).unwrap();
    let history = vec![make_commit(fri), make_commit(mon)];
    let streak = calculate_streak_from_history(&history);
    let _ = streak;
}

#[test]
fn streak_of_three_weekdays_on_the_third() {
    let history = vec![
        commit_on(2026, 1, 19, "a", "p", "p"),
        commit_on(2026, 1, 20, "b", "p", "p"),
        commit_on(2026, 1, 21, "c", "p", "p"),
    ];
    assert_eq!(streak_on_day(&history, day(2026, 1, 21)), 3);
    // The next day, before any commit, the run still counts from yesterday.
    assert_eq!(streak_on_day(&history, day(2026, 1, 22)), 3);
    // A weekday without a commit breaks it.
    assert_eq!(streak_on_day(&history, day(2026, 1, 23)), 0);
}

#[test]
fn weekend_commit_counts_as_bonus() {
    let history = vec![
        commit_on(2026, 1, 23, "a", "p", "p"),
        commit_on(2026, 1, 24, "b", "p", "p"),
        commit_on(2026, 1, 26, "c", "p", "p"),
    ];
    assert_eq!(streak_on_day(&history, day(2026, 1, 26)), 3);
}

#[test]
fn empty_weekend_does_not_break_the_streak() {
    let history = vec![commit_on(2026, 1, 23, "a", "p", "p"), commit_on(2026, 1, 26, "b", "p", "p")];
    assert_eq!(streak_on_day(&history, day(2026, 1, 26)), 2);
    // On the Sunday, with no commit, the Friday still counts.
    assert_eq!(streak_on_day(&history, day(2026, 1, 25)), 1);
}

#[test]
fn weekdays_and_weekends() {
    assert!(!is_weekend(day(2026, 1, 23)));
    assert!(is_weekend(day(2026, 1, 24)));
    assert!(is_weekend(day(2026, 1, 25)));
    assert!(!is_weekend(day(2026, 1, 26)));
    assert_eq!(weekday_from_monday(day(2026, 1, 26)), 0);
    assert_eq!(weekday_from_monday(day(2026, 1, 25)), 6);
    let d = NaiveDate::from_ymd_opt(1, 1, 1).unwrap();
    assert_eq!(weekday_from_monday(d.num_days_from_ce()), d.weekday().num_days_from_monday());
    let min = NaiveDate::MIN;
    assert_eq!(weekday_from_monday(min.num_days_from_ce()), min.weekday().num_days_from_monday());
}

#[test]
fn calendar_limits_match_chrono() {
    assert_eq!(FIRST_DAY, NaiveDate::MIN.num_days_from_ce());
    assert_eq!(LAST_DAY, NaiveDate::MAX.num_days_from_ce());
    assert_eq!(FIRST_TIMESTAMP, DateTime::<Utc>::MIN_UTC.timestamp());
    assert_eq!(LAST_TIMESTAMP, DateTime::<Utc>::MAX_UTC.timestamp());
}

#[test]
fn commits_are_counted_per_day() {
    let history = vec![
        commit_on(2026, 1, 19, "a", "p", "p"),
        commit_on(2026, 1, 20, "b", "p", "p"),
        commit_on(2026, 1, 20, "c", "q", "q"),
    ];
    assert_eq!(count_commits_on(&history, day(2026, 1, 20)), 2);
    assert_eq!(count_commits_on(&history, day(2026, 1, 21)), 0);
    let today = vec![make_commit(Local::now()), make_commit(Local::now())];
    assert_eq!(get_today_commit_count(&today), 2);
}

#[test]
fn week_summary_runs_from_monday_to_today() {
    let history = vec![
        commit_on(2026, 1, 19, "a", "p", "p"),
        commit_on(2026, 1, 21, "b", "p", "p"),
        commit_on(2026, 1, 21, "c", "p", "p"),
        commit_on(2026, 1, 18, "d", "p", "p"),
    ];
    let week = week_summary_on_day(&history, day(2026, 1, 21));
    assert_eq!(week, vec![(day(2026, 1, 19), 1), (day(2026, 1, 20), 0), (day(2026, 1, 21), 2)]);
    let monday = week_summary_on_day(&history, day(2026, 1, 19));
    assert_eq!(monday, vec![(day(2026, 1, 19), 1)]);
}

#[test]
fn projects_listed_by_commits_then_name() {
    let history = vec![
        commit_on(2026, 1, 21, "a", "/x/zeta", "zeta"),
        commit_on(2026, 1, 21, "b", "/x/alpha", "alpha"),
        commit_on(2026, 1, 21, "c", "/x/zeta", "zeta"),
        commit_on(2026, 1, 21, "d", "/x/beta", "beta"),
        commit_on(2026, 1, 20, "e", "/x/old", "old"),
    ];
    let r = today_by_project_on_day(&history, day(2026, 1, 21));
    let names: Vec<(String, u32)> = r.iter().map(|(_, n, c)| (n.clone(), *c)).collect();
    assert_eq!(
        names,
        vec![("zeta".to_string(), 2), ("alpha".to_string(), 1), ("beta".to_string(), 1)]
    );
    assert_eq!(r[0].0, "/x/zeta");
}

#[test]
fn saved_state_version() {
    assert_eq!(default_version(), 1);
}

#[test]
fn a_first_start() {
    let s = AppState::default();
    assert_eq!(s.happiness, 50);
    assert_eq!(s.version, 1);
    assert!(s.commit_history.is_empty());
    assert!(s.last_commit_time.is_none());
    assert!((1..=53).contains(&s.ground_style_week));
}

fn empty_state() -> AppState {
    AppState {
        last_seen: 0,
        happiness: 50,
        best_streak: 0,
        total_commits_tracked: 0,
        version: 1,
        commit_history: Vec::new(),
        last_commit_time: None,
        current_streak: 0,
        ground_style: GroundStyle::Garden,
        ground_style_week: 3,
        minigame_best_scores: Vec::new(),
        snake_best_scores: Vec::new(),
        breakout_best_scores: Vec::new(),
        tetris_normal_scores: Vec::new(),
        tetris_zen_scores: Vec::new(),
        tetris_dig_scores: Vec::new(),
        tetris_survival_scores: Vec::new(),
        dash_best_scores: Vec::new(),
        game_2048_best_scores: Vec::new(),
        vsrg_best_scores: Vec::new(),
    }
}

#[test]
fn a_new_commit_is_recorded_once() {
    let mut s = empty_state();
    let today = day(2026, 1, 21);
    assert!(s.record_commit_on_day(commit_on(2026, 1, 21, "abc", "p", "p"), today, 1000));
    assert_eq!(s.commit_history.len(), 1);
    assert_eq!(s.total_commits_tracked, 1);
    assert_eq!(s.happiness, 75);
    assert_eq!(s.current_streak, 1);
    assert_eq!(s.best_streak, 1);
    assert_eq!(s.last_commit_time, Some(1000));
    // The same hash again changes nothing.
    assert!(!s.record_commit_on_day(commit_on(2026, 1, 21, "abc", "p", "p"), today, 2000));
    assert_eq!(s.commit_history.len(), 1);
    assert_eq!(s.total_commits_tracked, 1);
    assert_eq!(s.happiness, 75);
    assert_eq!(s.last_commit_time, Some(1000));
    // Another one tops happiness out at 100.
    assert!(s.record_commit_on_day(commit_on(2026, 1, 21, "def", "p", "p"), today, 3000));
    assert_eq!(s.happiness, 100);
    assert_eq!(s.total_commits_tracked, 2);
}

#[test]
fn best_streak_follows_the_current_one() {
    let mut s = empty_state();
    s.best_streak = 5;
    s.commit_history = vec![commit_on(2026, 1, 19, "a", "p", "p"), commit_on(2026, 1, 20, "b", "p", "p")];
    assert!(s.record_commit_on_day(commit_on(2026, 1, 21, "c", "p", "p"), day(2026, 1, 21), 0));
    assert_eq!(s.current_streak, 3);
    assert_eq!(s.best_streak, 5);
    s.best_streak = 2;
    assert!(s.record_commit_on_day(commit_on(2026, 1, 21, "d", "p", "p"), day(2026, 1, 21), 0));
    assert_eq!(s.best_streak, 3);
}

#[test]
fn loading_works_out_streak_and_happiness_again() {
    let mut s = empty_state();
    s.commit_history = vec![
        commit_on(2026, 1, 20, "a", "p", "p"),
        commit_on(2026, 1, 21, "b", "p", "p"),
        commit_on(2026, 1, 21, "c", "p", "p"),
    ];
    s.happiness = 3;
    let mut rng = rand::thread_rng();
    s.refresh_on_day(day(2026, 1, 21), 3, 77, &mut rng);
    assert_eq!(s.current_streak, 2);
    assert_eq!(s.happiness, 34);
    assert_eq!(s.ground_style, GroundStyle::Garden);
    assert_eq!(s.last_seen, 77);
    s.refresh_on_day(day(2026, 1, 28), 4, 78, &mut rng);
    assert_eq!(s.ground_style_week, 4);
    assert_eq!(s.happiness, 0);
    assert_eq!(s.current_streak, 0);
}

#[test]
fn another_commit_never_lowers_the_streak() {
    let base = vec![
        commit_on(2026, 1, 16, "a", "p", "p"),
        commit_on(2026, 1, 19, "b", "p", "p"),
        commit_on(2026, 1, 21, "c", "p", "p"),
    ];
    for extra_day in 10..=31u32 {
        let mut more = base.clone();
        more.push(commit_on(2026, 1, extra_day, "x", "p", "p"));
        for today in 14..=31u32 {
            let t = day(2026, 1, today);
            assert!(streak_on_day(&more, t) >= streak_on_day(&base, t));
        }
    }
}

#[test]
fn clock_readings_follow_chrono() {
    let before = Local::now();
    let current = TimeOfDay::current();
    let after = Local::now();
    assert!(current == TimeOfDay::from_hour(before.hour()) || current == TimeOfDay::from_hour(after.hour()));
    let s = AppState::default();
    let week = Local::now().iso_week().week();
    assert!(s.ground_style_week == week || s.ground_style_week + 1 == week || week == 1);
    assert!((s.last_seen - Local::now().timestamp()).abs() <= 2);
}

#[test]
fn loading_and_recording_keep_the_score_tables() {
    let mut s = AppState::default();
    s.snake_best_scores = vec![40, 12];
    s.tetris_zen_scores = vec![900];
    s.vsrg_best_scores = vec![7, 5, 1];
    let mut rng = rand::thread_rng();
    s.refresh_on_day(day(2026, 1, 21), 3, 77, &mut rng);
    assert!(s.record_commit_on_day(commit_on(2026, 1, 21, "t1", "p", "p"), day(2026, 1, 21), 80));
    s.refresh_on_day(day(2026, 1, 28), 4, 90, &mut rng);
    assert_eq!(s.snake_best_scores, vec![40, 12]);
    assert_eq!(s.tetris_zen_scores, vec![900]);
    assert_eq!(s.vsrg_best_scores, vec![7, 5, 1]);
    assert!(s.minigame_best_scores.is_empty());
}

#[test]
fn debug_commits_come_and_go() {
    let today = day(2026, 1, 21);
    let c = debug_commit(today, 500, 7);
    assert_eq!(c.commit_hash, "debug-7");
    assert_eq!(c.project_id, "debug");
    assert_eq!(c.project_name, "debug");
    assert_eq!((c.date, c.timestamp), (today, 500));

    let mut s = AppState::default();
    s.happiness = 0;
    assert!(!s.remove_debug_commit_on_day(today));
    assert!(s.record_commit_on_day(commit_on(2026, 1, 21, "real", "p", "p"), today, 100));
    assert!(s.add_debug_commit_on_day(today, 200));
    assert_eq!(s.commit_history.len(), 2);
    assert_eq!(s.commit_history[1].commit_hash, "debug-1");
    assert_eq!(s.total_commits_tracked, 2);
    assert_eq!(s.happiness, 50);
    assert!(s.add_debug_commit_on_day(today, 300));
    assert_eq!(s.commit_history[2].commit_hash, "debug-2");
    assert!(s.remove_debug_commit_on_day(today));
    assert_eq!(s.commit_history.len(), 2);
    assert_eq!(s.commit_history[1].commit_hash, "debug-1");
    assert_eq!(s.total_commits_tracked, 2);
    assert_eq!(s.happiness, calculate_happiness_from_commits(2));
    assert!(s.remove_debug_commit_on_day(today));
    assert!(!s.remove_debug_commit_on_day(today));
    assert_eq!(s.commit_history.len(), 1);
    assert_eq!(s.commit_history[0].commit_hash, "real");
    assert_eq!(s.total_commits_tracked, 1);
    assert_eq!(s.happiness, calculate_happiness_from_commits(1));
    assert_eq!(s.current_streak, streak_on_day(&s.commit_history, today));
}

#[test]
fn this_week_is_never_empty() {
    let days = get_week_summary(&[]);
    assert!(!days.is_empty() && days.len() <= 7);
    assert!(days.iter().all(|(_, c)| *c == 0));
}
