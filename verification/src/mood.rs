use vstd::prelude::*;

verus! {

/// The mood states for the crab, from best to worst.
#[derive(Debug, Clone, Copy, PartialEq, Eq, Structural)]
pub enum Mood {
    /// Just committed: the crab is doing a happy dance.
    Ecstatic,
    /// Good streak, commits today.
    Happy,
    /// Some activity recently.
    Neutral,
    /// No commits today.
    Sad,
    /// Long idle period.
    Hungry,
}

/// The mood that a happiness level falls into (levels above 100 count as hungry).
pub open spec fn mood_of(happiness: int) -> Mood {
    if 90 <= happiness <= 100 {
        Mood::Ecstatic
    } else if 70 <= happiness <= 89 {
        Mood::Happy
    } else if 40 <= happiness <= 69 {
        Mood::Neutral
    } else if 20 <= happiness <= 39 {
        Mood::Sad
    } else {
        Mood::Hungry
    }
}

/// Position of a mood on the scale from best (0) to worst (4).
pub open spec fn mood_rank(m: Mood) -> int {
    match m {
        Mood::Ecstatic => 0,
        Mood::Happy => 1,
        Mood::Neutral => 2,
        Mood::Sad => 3,
        Mood::Hungry => 4,
    }
}

impl Mood {
    /// Calculate the mood from a happiness level (0-100).
    pub fn from_happiness(happiness: u8) -> (m: Mood)
        ensures
            m == mood_of(happiness as int),
    {
        if 90 <= happiness && happiness <= 100 {
            Mood::Ecstatic
        } else if 70 <= happiness && happiness <= 89 {
            Mood::Happy
        } else if 40 <= happiness && happiness <= 69 {
            Mood::Neutral
        } else if 20 <= happiness && happiness <= 39 {
            Mood::Sad
        } else {
            Mood::Hungry
        }
    }
}

} // verus!

verus! {

/// The name of a mood as shown to the player.
pub open spec fn mood_name(m: Mood) -> &'static str {
    match m {
        Mood::Ecstatic => "Ecstatic",
        Mood::Happy => "Happy",
        Mood::Neutral => "Neutral",
        Mood::Sad => "Sad",
        Mood::Hungry => "Hungry",
    }
}

impl Mood {
    /// The name of the mood as shown to the player.
    pub fn display_name(&self) -> (s: &'static str)
        ensures
            s == mood_name(*self),
    {
        match self {
            Mood::Ecstatic => "Ecstatic",
            Mood::Happy => "Happy",
            Mood::Neutral => "Neutral",
            Mood::Sad => "Sad",
            Mood::Hungry => "Hungry",
        }
    }

    /// The position of the mood from best (0) to worst (4).
    pub fn rank(&self) -> (r: u8)
        ensures
            r == mood_rank(*self),
    {
        match self {
            Mood::Ecstatic => 0,
            Mood::Happy => 1,
            Mood::Neutral => 2,
            Mood::Sad => 3,
            Mood::Hungry => 4,
        }
    }
}

/// How the mood moved between two checks.
#[derive(Debug, Clone, Copy, PartialEq, Eq, Structural)]
pub enum MoodShift {
    /// The mood stayed the same.
    Unchanged,
    /// The mood got better.
    Up,
    /// The mood got worse.
    Down,
}

/// Compares the last mood with the current one: worse, better or the same.
pub fn mood_shift(last: Mood, current: Mood) -> (s: MoodShift)
    ensures
        s == if current == last {
            MoodShift::Unchanged
        } else if mood_rank(current) > mood_rank(last) {
            MoodShift::Down
        } else {
            MoodShift::Up
        },
{
    if current == last {
        MoodShift::Unchanged
    } else if current.rank() > last.rank() {
        MoodShift::Down
    } else {
        MoodShift::Up
    }
}

/// A higher happiness never gives a worse mood, up to 100.
pub proof fn lemma_mood_monotone(a: int, b: int)
    requires
        0 <= a <= b <= 100,
    ensures
        mood_rank(mood_of(b)) <= mood_rank(mood_of(a)),
{
}

/// Happiness raised by `amount`, up to 100.
pub open spec fn boosted(happiness: int, amount: int) -> int {
    if happiness + amount > 100 {
        100
    } else {
        happiness + amount
    }
}

/// Happiness lowered by `amount`, down to 0.
pub open spec fn decayed(happiness: int, amount: int) -> int {
    if happiness < amount {
        0
    } else {
        happiness - amount
    }
}

/// Raises happiness by `amount`, up to 100.
pub fn boost_happiness(happiness: u8, amount: u8) -> (h: u8)
    ensures
        h == boosted(happiness as int, amount as int),
{
    if happiness as u16 + amount as u16 > 100 {
        100
    } else {
        happiness + amount
    }
}

/// Lowers happiness by `amount`, down to 0.
pub fn decay_happiness(happiness: u8, amount: u8) -> (h: u8)
    ensures
        h == decayed(happiness as int, amount as int),
{
    happiness.saturating_sub(amount)
}

} // verus!
