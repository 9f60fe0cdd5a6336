//! Dash: the runner jumps over obstacles that scroll towards it. Everything
//! but the playfield moves in fractional cells, which the caller keeps.
use vstd::prelude::*;
use crate::games::field::{fit, fit_spec};

verus! {

/// Widest playfield.
pub const DASH_PLAYFIELD_WIDTH: u16 = 48;
/// Tallest playfield.
pub const DASH_PLAYFIELD_HEIGHT: u16 = 12;

/// The playfield for a screen area: four columns and four rows less, kept
/// between 24x8 and 48x12.
pub open spec fn dash_playfield_of(bounds: (u16, u16)) -> (u16, u16) {
    (
        fit_spec(bounds.0 as int, 4, 24, DASH_PLAYFIELD_WIDTH as int) as u16,
        fit_spec(bounds.1 as int, 4, 8, DASH_PLAYFIELD_HEIGHT as int) as u16,
    )
}

/// The playfield for a screen area.
pub fn calculate_playfield(bounds: (u16, u16)) -> (p: (u16, u16))
    ensures
        p == dash_playfield_of(bounds),
{
    (fit(bounds.0, 4, 24, DASH_PLAYFIELD_WIDTH), fit(bounds.1, 4, 8, DASH_PLAYFIELD_HEIGHT))
}

} // verus!
