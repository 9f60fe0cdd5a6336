use chrono::{Local, NaiveDate, Datelike};
use kanitomo::git::{
    calculate_streak, format_time_ago, is_new_head, stats_from_commits, time_ago_between, today_count_fits, GitStats,
};
use kanitomo::messages::{get_commit_message, get_mood_down_message, get_mood_message, get_mood_up_message};
use kanitomo::mood::Mood;
use std::collections::HashSet;

fn day(y: i32, m: u32, d: u32) -> i32 {
    NaiveDate::from_ymd_opt(y, m, d).unwrap().num_days_from_ce()
}

#[test]
fn streak_of_calendar_days() {
    let t = day(2026, 1, 21);
    let set: HashSet<i32> = [t, t - 1, t - 2, t - 4].into_iter().collect();
    assert_eq!(calculate_streak(&set, t), 3);
    assert_eq!(calculate_streak(&set, t + 1), 3);
    assert_eq!(calculate_streak(&set, t + 2), 0);
    assert_eq!(calculate_streak(&HashSet::new(), t), 0);
}

#[test]
fn stats_add_up_the_last_thirty_days() {
    let t = day(2026, 1, 21);
    let repos = vec![
        vec![(5000, t), (4000, t), (3000, t - 1), (10, t - 40), (20, t)],
        vec![(6000, t - 2), (7000, t - 3)],
    ];
    let s = stats_from_commits(&repos, vec!["a".to_string(), "b".to_string()], t);
    assert!(s.in_git_repo);
    assert_eq!(s.repo_count, 2);
    assert_eq!(s.commits_today, 2);
    assert_eq!(s.last_commit, Some(7000));
    assert_eq!(s.current_streak, 4);
    assert_eq!(s.repo_names, vec!["a".to_string(), "b".to_string()]);
    let none = stats_from_commits(&vec![], vec![], t);
    assert!(!none.in_git_repo);
    assert_eq!(none.commits_today, 0);
    let d = GitStats::default();
    assert_eq!(d.repo_count, 0);
}

#[test]
fn heads_and_time_ago() {
    let a = "abc".to_string();
    let b = "def".to_string();
    assert!(is_new_head(None, &a));
    assert!(!is_new_head(Some(&a), &a));
    assert!(is_new_head(Some(&a), &b));
    assert_eq!(time_ago_between(None, 100), "never");
    assert_eq!(time_ago_between(Some(100), 100 + 7200), "2 hours ago");
    assert_eq!(format_time_ago(None), "never");
    let just = Local::now().timestamp();
    assert_eq!(format_time_ago(Some(just)), "just now");
}

#[test]
fn messages_come_from_their_lists() {
    let sad = [
        "I miss your commits...",
        "It's been a while...",
        "Are you still there?",
        "I'm getting lonely...",
        "Come back soon?",
        "I'll wait for you.",
    ];
    for _ in 0..20 {
        assert!(sad.contains(&get_mood_message(Mood::Sad)));
    }
    assert!(get_commit_message().len() > 0);
    assert!(["Getting a bit tired...", "Could use a pick-me-up...", "Starting to miss you...", "Don't leave me hanging..."]
        .contains(&get_mood_down_message()));
    assert!(get_mood_up_message().len() > 0);
}

#[test]
fn todays_commits_fit_the_count() {
    let t = day(2026, 1, 21);
    let repos = vec![vec![(5000, t), (4000, t), (10, t - 40), (20, t)], vec![(6000, t - 2)]];
    assert!(today_count_fits(&repos, t));
    assert!(today_count_fits(&vec![], t));
}
