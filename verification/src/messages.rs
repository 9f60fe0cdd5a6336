//! What Kani says: a line picked at random for its mood, for a commit, or for
//! a change of mood.
use vstd::prelude::*;
use crate::mood::Mood;
use crate::rng::{pick, thread_rng};

verus! {

/// Lines for an ecstatic crab.
pub open spec fn ecstatic_messages() -> Seq<&'static str> {
    seq![
        "You're on fire today!",
        "We're unstoppable!",
        "This is amazing!",
        "Best day ever!",
        "I'm so happy right now!",
        "You're crushing it!",
        "Let's keep this momentum!",
    ]
}

/// Lines for a happy crab.
pub open spec fn happy_messages() -> Seq<&'static str> {
    seq![
        "Let's build something great!",
        "Good vibes today!",
        "Keep up the good work!",
        "I love coding with you!",
        "We make a great team!",
        "Feeling good about this!",
        "Ready for more!",
    ]
}

/// Lines for a crab in a neutral mood.
pub open spec fn neutral_messages() -> Seq<&'static str> {
    seq![
        "Ready when you are!",
        "What shall we build?",
        "I'm here for you!",
        "Take your time.",
        "Let me know when you're ready.",
        "Standing by!",
    ]
}

/// Lines for a sad crab.
pub open spec fn sad_messages() -> Seq<&'static str> {
    seq![
        "I miss your commits...",
        "It's been a while...",
        "Are you still there?",
        "I'm getting lonely...",
        "Come back soon?",
        "I'll wait for you.",
    ]
}

/// Lines for a hungry crab.
pub open spec fn hungry_messages() -> Seq<&'static str> {
    seq![
        "Feed me some code?",
        "I'm so hungry...",
        "Please, just one commit?",
        "I need commits to survive...",
        "Don't forget about me...",
        "A little code would help...",
    ]
}

/// Lines for a new commit.
pub open spec fn commit_messages() -> Seq<&'static str> {
    seq![
        "Yum, thanks for the meal!",
        "Delicious commit!",
        "That hit the spot!",
        "Nom nom nom!",
        "Thanks, I needed that!",
        "You're the best!",
        "Keep 'em coming!",
        "That was great!",
    ]
}

/// Lines for a better mood.
pub open spec fn mood_up_messages() -> Seq<&'static str> {
    seq![
        "I'm feeling better!",
        "That cheered me up!",
        "Now we're talking!",
        "I like where this is going!",
        "Yes, more of that please!",
    ]
}

/// Lines for a worse mood.
pub open spec fn mood_down_messages() -> Seq<&'static str> {
    seq![
        "Getting a bit tired...",
        "Could use a pick-me-up...",
        "Starting to miss you...",
        "Don't leave me hanging...",
    ]
}

/// The lines for a mood.
pub open spec fn mood_messages(mood: Mood) -> Seq<&'static str> {
    match mood {
        Mood::Ecstatic => ecstatic_messages(),
        Mood::Happy => happy_messages(),
        Mood::Neutral => neutral_messages(),
        Mood::Sad => sad_messages(),
        Mood::Hungry => hungry_messages(),
    }
}

/// One of `items` at random; `fallback` when there is none.
fn choose_message(items: &[&'static str], fallback: &'static str) -> (m: &'static str)
    ensures
        items@.len() > 0 ==> items@.contains(m),
        items@.len() == 0 ==> m == fallback,
{
    let mut rng = thread_rng();
    match pick(items, &mut rng) {
        Some(m) => m,
        None => fallback,
    }
}

/// A line for the crab's mood, at random.
pub fn get_mood_message(mood: Mood) -> (m: &'static str)
    ensures
        mood_messages(mood).contains(m),
{
    match mood {
        Mood::Ecstatic => {
            let a = [
                "You're on fire today!",
                "We're unstoppable!",
                "This is amazing!",
                "Best day ever!",
                "I'm so happy right now!",
                "You're crushing it!",
                "Let's keep this momentum!",
            ];
            assert(a@ =~= ecstatic_messages());
            choose_message(&a, "...")
        },
        Mood::Happy => {
            let a = [
                "Let's build something great!",
                "Good vibes today!",
                "Keep up the good work!",
                "I love coding with you!",
                "We make a great team!",
                "Feeling good about this!",
                "Ready for more!",
            ];
            assert(a@ =~= happy_messages());
            choose_message(&a, "...")
        },
        Mood::Neutral => {
            let a = [
                "Ready when you are!",
                "What shall we build?",
                "I'm here for you!",
                "Take your time.",
                "Let me know when you're ready.",
                "Standing by!",
            ];
            assert(a@ =~= neutral_messages());
            choose_message(&a, "...")
        },
        Mood::Sad => {
            let a = [
                "I miss your commits...",
                "It's been a while...",
                "Are you still there?",
                "I'm getting lonely...",
                "Come back soon?",
                "I'll wait for you.",
            ];
            assert(a@ =~= sad_messages());
            choose_message(&a, "...")
        },
        Mood::Hungry => {
            let a = [
                "Feed me some code?",
                "I'm so hungry...",
                "Please, just one commit?",
                "I need commits to survive...",
                "Don't forget about me...",
                "A little code would help...",
            ];
            assert(a@ =~= hungry_messages());
            choose_message(&a, "...")
        },
    }
}

/// A line for a new commit, at random.
pub fn get_commit_message() -> (m: &'static str)
    ensures
        commit_messages().contains(m),
{
    let a = [
        "Yum, thanks for the meal!",
        "Delicious commit!",
        "That hit the spot!",
        "Nom nom nom!",
        "Thanks, I needed that!",
        "You're the best!",
        "Keep 'em coming!",
        "That was great!",
    ];
    assert(a@ =~= commit_messages());
    choose_message(&a, "Thanks!")
}

/// A line for a better mood, at random.
pub fn get_mood_up_message() -> (m: &'static str)
    ensures
        mood_up_messages().contains(m),
{
    let a = [
        "I'm feeling better!",
        "That cheered me up!",
        "Now we're talking!",
        "I like where this is going!",
        "Yes, more of that please!",
    ];
    assert(a@ =~= mood_up_messages());
    choose_message(&a, "Feeling better!")
}

/// A line for a worse mood, at random.
pub fn get_mood_down_message() -> (m: &'static str)
    ensures
        mood_down_messages().contains(m),
{
    let a = [
        "Getting a bit tired...",
        "Could use a pick-me-up...",
        "Starting to miss you...",
        "Don't leave me hanging...",
    ];
    assert(a@ =~= mood_down_messages());
    choose_message(&a, "...")
}

} // verus!
