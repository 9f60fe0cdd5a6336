use kanitomo::crab::{build_frame, crab_frame, select_pose, BodyTemplates, Direction, Eyes, Mouths};
use kanitomo::mood::{boost_happiness, decay_happiness, mood_shift, Mood, MoodShift};
use kanitomo::scores::{calculate_rank, record_score};
use kanitomo::text::{count_bar_len, happiness_bar_cells, replace_str, str_lt, tile_label, time_ago_text, truncate_str, u64_to_string};

#[test]
fn tile_labels_are_centred() {
    assert_eq!(tile_label(0), "   \u{b7}   ");
    assert_eq!(tile_label(2), "   2   ");
    assert_eq!(tile_label(16), "  16   ");
    assert_eq!(tile_label(128), "  128  ");
    assert_eq!(tile_label(2048), " 2048  ");
    assert_eq!(tile_label(1234567), "1234567");
    assert_eq!(tile_label(123456789), "123456789");
}

#[test]
fn decimal_forms() {
    assert_eq!(u64_to_string(0), "0");
    assert_eq!(u64_to_string(7), "7");
    assert_eq!(u64_to_string(1050), "1050");
    assert_eq!(u64_to_string(u64::MAX), u64::MAX.to_string());
}

#[test]
fn truncation_marks_the_cut() {
    assert_eq!(truncate_str("kanitomo", 10), "kanitomo");
    assert_eq!(truncate_str("kanitomo", 8), "kanitomo");
    assert_eq!(truncate_str("kanitomo", 6), "kani..");
    assert_eq!(truncate_str("kanitomo", 2), "..");
    assert_eq!(truncate_str("héllo", 5), "hé..");
}

#[test]
fn time_ago_phrases() {
    assert_eq!(time_ago_text(-5), "just now");
    assert_eq!(time_ago_text(59), "just now");
    assert_eq!(time_ago_text(60), "1 min ago");
    assert_eq!(time_ago_text(150), "2 mins ago");
    assert_eq!(time_ago_text(3600), "1 hour ago");
    assert_eq!(time_ago_text(7300), "2 hours ago");
    assert_eq!(time_ago_text(86400), "1 day ago");
    assert_eq!(time_ago_text(3 * 86400 + 5), "3 days ago");
}

#[test]
fn replacing_and_ordering_text() {
    assert_eq!(replace_str("a{x}b{x}", "{x}", "--"), "a--b--");
    assert_eq!(replace_str("aaa", "aa", "b"), "ba");
    assert!(str_lt("alpha", "beta"));
    assert!(str_lt("be", "beta"));
    assert!(!str_lt("beta", "beta"));
    assert!(!str_lt("gamma", "beta"));
}

#[test]
fn frames_fill_in_the_face() {
    assert_eq!(build_frame("({eyes}) {mouth}", "o o", "v"), "(o o) v");
    let (body, eyes, mouth) = select_pose(Mood::Sad, true, false, false, Direction::Left, 3);
    assert_eq!(body, BodyTemplates::STANDING_LEFT);
    assert_eq!(eyes, Eyes::SAD);
    assert_eq!(mouth, Mouths::SAD);
    let (body, _, _) = select_pose(Mood::Happy, false, false, false, Direction::Right, 4);
    assert_eq!(body, BodyTemplates::CLAPPING_RIGHT);
    let (body, eyes, _) = select_pose(Mood::Neutral, false, true, false, Direction::Right, 1);
    assert_eq!(body, BodyTemplates::ECSTATIC_2);
    assert_eq!(eyes, Eyes::ECSTATIC);
    let frame = crab_frame(Mood::Hungry, false, false, false, Direction::Right, 0);
    assert_eq!(frame, build_frame(BodyTemplates::BEGGING_RIGHT, Eyes::HUNGRY, Mouths::HUNGRY));
    assert!(!frame.contains("{eyes}"));
}

#[test]
fn moods_from_happiness() {
    assert_eq!(Mood::from_happiness(95), Mood::Ecstatic);
    assert_eq!(Mood::from_happiness(70), Mood::Happy);
    assert_eq!(Mood::from_happiness(50), Mood::Neutral);
    assert_eq!(Mood::from_happiness(20), Mood::Sad);
    assert_eq!(Mood::from_happiness(5), Mood::Hungry);
    assert_eq!(Mood::from_happiness(150), Mood::Hungry);
    assert_eq!(Mood::Happy.display_name(), "Happy");
    assert_eq!(mood_shift(Mood::Happy, Mood::Sad), MoodShift::Down);
    assert_eq!(mood_shift(Mood::Sad, Mood::Happy), MoodShift::Up);
    assert_eq!(mood_shift(Mood::Sad, Mood::Sad), MoodShift::Unchanged);
    assert_eq!(boost_happiness(90, 25), 100);
    assert_eq!(boost_happiness(40, 25), 65);
    assert_eq!(decay_happiness(3, 5), 0);
    assert_eq!(decay_happiness(30, 5), 25);
}

#[test]
fn score_tables_keep_the_best_hundred() {
    let mut scores = vec![50, 30, 10];
    record_score(&mut scores, 40);
    assert_eq!(scores, vec![50, 40, 30, 10]);
    record_score(&mut scores, 5);
    assert_eq!(scores, vec![50, 40, 30, 10, 5]);
    let mut full: Vec<u32> = (0..100).rev().collect();
    record_score(&mut full, 1000);
    assert_eq!(full.len(), 100);
    assert_eq!(full[0], 1000);
    assert_eq!(full[99], 1);
    assert_eq!(calculate_rank(&[50, 40, 30], 45), 2);
    assert_eq!(calculate_rank(&[50, 40, 30], 40), 2);
    assert_eq!(calculate_rank(&[50, 40, 30], 10), 4);
    assert_eq!(calculate_rank(&[], 10), 1);
}

#[test]
fn body_templates_as_drawn() {
    let standing_right = r#"    _~^~^~_
\) /  {eyes}  \ (/
  '_   {mouth}   _'
  \ '-----' /"#;
    assert_eq!(BodyTemplates::STANDING_RIGHT, standing_right);
    let begging_left = r#"    _~^~^~_
// /  {eyes}  \ \\
  '_   {mouth}   _'
  / '-----' \"#;
    assert_eq!(BodyTemplates::BEGGING_LEFT, begging_left);
    let dance = r#"   \/_~^~^~_\/
    /  {eyes}  \
   '_   {mouth}   _'
  // '-----' \\"#;
    assert_eq!(BodyTemplates::ECSTATIC_2, dance);
    for body in [
        BodyTemplates::STANDING_LEFT,
        BodyTemplates::WALKING_RIGHT,
        BodyTemplates::WALKING_LEFT,
        BodyTemplates::CLAPPING_RIGHT,
        BodyTemplates::CLAPPING_LEFT,
        BodyTemplates::BEGGING_RIGHT,
        BodyTemplates::ECSTATIC_1,
    ] {
        assert_eq!(body.lines().count(), 4);
        assert!(body.contains("{eyes}") && body.contains("{mouth}"));
    }
}

#[test]
fn happiness_bar_fill() {
    assert_eq!(happiness_bar_cells(0), (0, 20));
    assert_eq!(happiness_bar_cells(55), (11, 9));
    assert_eq!(happiness_bar_cells(99), (19, 1));
    assert_eq!(happiness_bar_cells(100), (20, 0));
}

#[test]
fn count_bars_scale_to_the_largest_count() {
    assert_eq!(count_bar_len(0, 5), 0);
    assert_eq!(count_bar_len(5, 5), 10);
    assert_eq!(count_bar_len(3, 5), 6);
    assert_eq!(count_bar_len(1, 20), 1);
    assert_eq!(count_bar_len(2, 3), 6);
    assert_eq!(count_bar_len(4, 0), 40);
}
