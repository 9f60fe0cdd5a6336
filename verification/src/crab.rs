//! The crab's faces and poses, and which frame it shows.
use vstd::prelude::*;
use crate::mood::Mood;
use crate::text::{replace_all, replace_str};

verus! {

/// The direction the crab is facing.
#[derive(Clone, Copy, Debug, PartialEq, Eq, Structural)]
pub enum Direction {
    Left,
    Right,
}

/// Eye expressions for the moods.
pub struct Eyes;

impl Eyes {
    pub const NEUTRAL: &'static str = "o o";
    pub const HAPPY: &'static str = "^ ^";
    pub const SAD: &'static str = "- -";
    pub const HUNGRY: &'static str = "T T";
    pub const ECSTATIC: &'static str = "* *";
}

/// Mouth expressions for the moods.
pub struct Mouths;

impl Mouths {
    pub const NEUTRAL: &'static str = "-";
    pub const HAPPY: &'static str = "u";
    pub const SAD: &'static str = "n";
    pub const HUNGRY: &'static str = "~";
    pub const ECSTATIC: &'static str = "w";
}

/// Body poses with `{eyes}` and `{mouth}` placeholders.
pub struct BodyTemplates;

impl BodyTemplates {
    /// Standing pose facing right.
    pub const STANDING_RIGHT: &'static str = "    _~^~^~_\n\\) /  {eyes}  \\ (/\n  '_   {mouth}   _'\n  \\ '-----' /";
    /// Standing pose facing left.
    pub const STANDING_LEFT: &'static str = "    _~^~^~_\n(\\ /  {eyes}  \\ ()\n  '_   {mouth}   _'\n  / '-----' \\";
    /// Walking pose facing right (legs offset).
    pub const WALKING_RIGHT: &'static str = "    _~^~^~_\n\\) /  {eyes}  \\ (/\n  '_   {mouth}   _'\n  / '-----' \\";
    /// Walking pose facing left (legs offset).
    pub const WALKING_LEFT: &'static str = "    _~^~^~_\n(\\ /  {eyes}  \\ ()\n  '_   {mouth}   _'\n  \\ '-----' /";
    /// Clapping pose facing right (arms up).
    pub const CLAPPING_RIGHT: &'static str = "    _~^~^~_\n\\/ /  {eyes}  \\ \\/\n  '_   {mouth}   _'\n  \\ '-----' /";
    /// Clapping pose facing left (arms up).
    pub const CLAPPING_LEFT: &'static str = "    _~^~^~_\n|| /  {eyes}  \\ ||\n  '_   {mouth}   _'\n  / '-----' \\";
    /// Begging pose facing right (arms raised).
    pub const BEGGING_RIGHT: &'static str = "    _~^~^~_\n\\\\ /  {eyes}  \\ //\n  '_   {mouth}   _'\n  \\ '-----' /";
    /// Begging pose facing left (arms raised).
    pub const BEGGING_LEFT: &'static str = "    _~^~^~_\n// /  {eyes}  \\ \\\\\n  '_   {mouth}   _'\n  / '-----' \\";
    /// Dance frame 1.
    pub const ECSTATIC_1: &'static str = "   ()_~^~^~_()\n    /  {eyes}  \\\n   '_   {mouth}   _'\n  \\\\ '-----' //";
    /// Dance frame 2.
    pub const ECSTATIC_2: &'static str = "   \\/_~^~^~_\\/\n    /  {eyes}  \\\n   '_   {mouth}   _'\n  // '-----' \\\\";
}

/// A frame: the body with its placeholders filled in.
pub open spec fn frame_of(body: Seq<char>, eyes: Seq<char>, mouth: Seq<char>) -> Seq<char> {
    replace_all(replace_all(body, "{eyes}"@, eyes), "{mouth}"@, mouth)
}

/// Builds a frame from a body template and face parts.
pub fn build_frame(body: &str, eyes: &str, mouth: &str) -> (f: String)
    ensures
        f@ == frame_of(body@, eyes@, mouth@),
{
    proof {
        reveal_strlit("{eyes}");
        reveal_strlit("{mouth}");
    }
    let with_eyes = replace_str(body, "{eyes}", eyes);
    replace_str(with_eyes.as_str(), "{mouth}", mouth)
}

/// The body, eyes and mouth of the crab's frame. Jumping, celebrating or
/// ecstatic, it dances (two frames alternating). Otherwise the face follows the
/// mood and the body: happy walks when moving and claps every fourth frame when
/// idle; neutral walks when moving; sad stands; hungry alternates begging and
/// standing. Poses face the crab's direction.
pub open spec fn pose(
    mood: Mood,
    moving: bool,
    jumping: bool,
    celebrating: bool,
    right: bool,
    frame: int,
) -> (&'static str, &'static str, &'static str) {
    let even = frame % 2 == 0;
    if jumping || celebrating || mood == Mood::Ecstatic {
        (if even { BodyTemplates::ECSTATIC_1 } else { BodyTemplates::ECSTATIC_2 }, Eyes::ECSTATIC, Mouths::ECSTATIC)
    } else {
        let standing = if right { BodyTemplates::STANDING_RIGHT } else { BodyTemplates::STANDING_LEFT };
        let walking = if right {
            if even { BodyTemplates::STANDING_RIGHT } else { BodyTemplates::WALKING_RIGHT }
        } else {
            if even { BodyTemplates::STANDING_LEFT } else { BodyTemplates::WALKING_LEFT }
        };
        match mood {
            Mood::Happy => (
                if moving {
                    walking
                } else if frame % 4 == 0 {
                    if right { BodyTemplates::CLAPPING_RIGHT } else { BodyTemplates::CLAPPING_LEFT }
                } else {
                    standing
                },
                Eyes::HAPPY,
                Mouths::HAPPY,
            ),
            Mood::Neutral => (if moving { walking } else { standing }, Eyes::NEUTRAL, Mouths::NEUTRAL),
            Mood::Sad => (standing, Eyes::SAD, Mouths::SAD),
            _ => (
                if even {
                    if right { BodyTemplates::BEGGING_RIGHT } else { BodyTemplates::BEGGING_LEFT }
                } else {
                    standing
                },
                Eyes::HUNGRY,
                Mouths::HUNGRY,
            ),
        }
    }
}

/// Chooses the body, eyes and mouth of the crab's current frame (see `pose`).
pub fn select_pose(
    mood: Mood,
    moving: bool,
    jumping: bool,
    celebrating: bool,
    direction: Direction,
    frame_index: usize,
) -> (p: (&'static str, &'static str, &'static str))
    ensures
        p == pose(mood, moving, jumping, celebrating, direction == Direction::Right, frame_index as int),
{
    let right = direction == Direction::Right;
    let even = frame_index % 2 == 0;
    if jumping || celebrating || mood == Mood::Ecstatic {
        let body = if even { BodyTemplates::ECSTATIC_1 } else { BodyTemplates::ECSTATIC_2 };
        return (body, Eyes::ECSTATIC, Mouths::ECSTATIC);
    }
    let standing = if right { BodyTemplates::STANDING_RIGHT } else { BodyTemplates::STANDING_LEFT };
    let walking = if right {
        if even { BodyTemplates::STANDING_RIGHT } else { BodyTemplates::WALKING_RIGHT }
    } else {
        if even { BodyTemplates::STANDING_LEFT } else { BodyTemplates::WALKING_LEFT }
    };
    match mood {
        Mood::Happy => {
            let body = if moving {
                walking
            } else if frame_index % 4 == 0 {
                if right { BodyTemplates::CLAPPING_RIGHT } else { BodyTemplates::CLAPPING_LEFT }
            } else {
                standing
            };
            (body, Eyes::HAPPY, Mouths::HAPPY)
        },
        Mood::Neutral => (if moving { walking } else { standing }, Eyes::NEUTRAL, Mouths::NEUTRAL),
        Mood::Sad => (standing, Eyes::SAD, Mouths::SAD),
        _ => {
            let body = if even {
                if right { BodyTemplates::BEGGING_RIGHT } else { BodyTemplates::BEGGING_LEFT }
            } else {
                standing
            };
            (body, Eyes::HUNGRY, Mouths::HUNGRY)
        },
    }
}

/// The crab's current frame as text (see `pose` and `frame_of`).
pub fn crab_frame(
    mood: Mood,
    moving: bool,
    jumping: bool,
    celebrating: bool,
    direction: Direction,
    frame_index: usize,
) -> (f: String)
    ensures
        ({
            let p = pose(mood, moving, jumping, celebrating, direction == Direction::Right, frame_index as int);
            f@ == frame_of(p.0@, p.1@, p.2@)
        }),
{
    let (body, eyes, mouth) = select_pose(mood, moving, jumping, celebrating, direction, frame_index);
    build_frame(body, eyes, mouth)
}

} // verus!
