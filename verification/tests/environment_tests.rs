use kanitomo::environment::{
    cloud_large_art, cloud_small_art, moon_art, sun_art, Environment, GroundStyle, PositionedElement, TimeOfDay,
};

#[test]
fn hours_of_the_day() {
    assert_eq!(TimeOfDay::from_hour(6), TimeOfDay::Morning);
    assert_eq!(TimeOfDay::from_hour(11), TimeOfDay::Morning);
    assert_eq!(TimeOfDay::from_hour(12), TimeOfDay::Day);
    assert_eq!(TimeOfDay::from_hour(18), TimeOfDay::Evening);
    assert_eq!(TimeOfDay::from_hour(21), TimeOfDay::Night);
    assert_eq!(TimeOfDay::from_hour(3), TimeOfDay::Night);
}

#[test]
fn ground_comes_from_the_style() {
    assert_eq!(GroundStyle::default(), GroundStyle::Beach);
    let chars = GroundStyle::Rocky.ground_chars();
    let mut rng = rand::thread_rng();
    let line = Environment::generate_ground_line(50, GroundStyle::Rocky, &mut rng);
    assert_eq!(line.chars().count(), 50);
    assert!(line.chars().all(|c| chars.contains(&c)));
}

#[test]
fn sky_layout() {
    let mut rng = rand::thread_rng();
    assert!(Environment::generate_background(10, 10, TimeOfDay::Day, &mut rng).is_empty());
    for _ in 0..20 {
        let els: Vec<PositionedElement> = Environment::generate_background(60, 12, TimeOfDay::Day, &mut rng);
        assert!(!els.is_empty() && els.len() <= 3);
        assert!(els[0].x >= 20 && els[0].x < 40 && els[0].y < 2);
        assert_eq!(els[0].content.len(), 3);
        let night = Environment::generate_background(60, 12, TimeOfDay::Night, &mut rng);
        assert_eq!(night.len(), 1);
        assert!(night[0].x >= 15 && night[0].x < 30 && night[0].y == 0);
    }
    let stars = Environment::generate_stars(40, 30, &mut rng);
    assert_eq!(stars.len(), 30);
    let few = Environment::generate_stars(20, 6, &mut rng);
    assert_eq!(few.len(), 3);
    assert!(few.iter().all(|s| s.x < 20 && s.y < 4));
    let env = Environment::generate(60, 12, GroundStyle::Garden);
    assert_eq!(env.ground_line.chars().count(), 60);
    assert_eq!(env.stars.is_empty(), env.time_of_day != TimeOfDay::Night);
}

#[test]
fn random_styles_vary() {
    let mut rng = rand::thread_rng();
    let mut seen = Vec::new();
    for _ in 0..200 {
        let s = GroundStyle::random(&mut rng);
        if !seen.contains(&s) {
            seen.push(s);
        }
    }
    assert!(seen.len() >= 2);
}

#[test]
fn ground_styles_cycle() {
    assert_eq!(GroundStyle::Beach.next(), GroundStyle::Garden);
    assert_eq!(GroundStyle::Rocky.next(), GroundStyle::Minimal);
    assert_eq!(GroundStyle::Minimal.next(), GroundStyle::Beach);
}

#[test]
fn ground_characters_come_from_the_chunks() {
    let beach: &[&str] = &["....", "..", "..", "..", ".,", ",.", "::", "~~", "~~", "o.", ".o", "o", "@", "''"];
    let garden: &[&str] = &["....", "..", "..", "..", ".,", "`.", "''", "^^", "^^", "^^", "**", "++", "vv", "()"];
    let rocky: &[&str] = &["....", "..", "..", ".o", "o.", "oo", "O.", ".O", "O", "::", "~~", "~~"];
    for (style, chunks) in [
        (GroundStyle::Beach, beach),
        (GroundStyle::Garden, garden),
        (GroundStyle::Rocky, rocky),
    ] {
        let expected: Vec<char> = chunks.concat().chars().collect();
        assert_eq!(style.ground_chars(), expected);
    }
}

#[test]
fn minimal_ground_is_a_single_character() {
    assert_eq!(GroundStyle::Minimal.ground_chars(), vec!['.']);
}

#[test]
fn sky_pictures() {
    assert_eq!(sun_art(), vec![r"  \*/  ", "-- O --", r"  /*\  "]);
    assert_eq!(moon_art(), vec!["  ,-,", " /.(", r" \ {", "  `-`"]);
    assert_eq!(cloud_small_art(), vec!["  .--.  ", " (    ) ", "  `--'  "]);
    assert_eq!(cloud_large_art(), vec!["   .---.   ", "  (     )  ", " (       ) ", "  `-----'  "]);
    let mut rng = rand::thread_rng();
    for _ in 0..20 {
        let day = Environment::generate_background(60, 12, TimeOfDay::Day, &mut rng);
        assert_eq!(day[0].content, sun_art());
        for cloud in &day[1..] {
            assert!(
                (cloud.content == cloud_small_art() && cloud.x < 52)
                    || (cloud.content == cloud_large_art() && cloud.x < 49)
            );
        }
        let night = Environment::generate_background(60, 12, TimeOfDay::Night, &mut rng);
        assert_eq!(night[0].content, moon_art());
    }
}

#[test]
fn scenery_follows_a_new_time_of_day() {
    let mut rng = rand::thread_rng();
    let mut env = Environment::generate(60, 12, GroundStyle::Beach);
    let line = env.ground_line.clone();
    env.update_time_to(TimeOfDay::Night, &mut rng);
    assert_eq!(env.time_of_day, TimeOfDay::Night);
    assert_eq!(env.background_elements.len(), 1);
    assert_eq!(env.background_elements[0].content, moon_art());
    assert_eq!(env.stars.len(), 18);
    env.update_time_to(TimeOfDay::Day, &mut rng);
    assert_eq!(env.time_of_day, TimeOfDay::Day);
    assert!(env.stars.is_empty());
    assert_eq!(env.background_elements[0].content, sun_art());
    let before: Vec<(u16, u16)> = env.background_elements.iter().map(|e| (e.x, e.y)).collect();
    env.update_time_to(TimeOfDay::Day, &mut rng);
    let after: Vec<(u16, u16)> = env.background_elements.iter().map(|e| (e.x, e.y)).collect();
    assert_eq!(before, after);
    assert_eq!(env.ground_line, line);
    assert_eq!((env.width, env.height), (60, 12));
}
