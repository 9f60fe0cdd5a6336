//! Fitting a game's playfield into the screen area that it gets.
use vstd::prelude::*;

verus! {

/// `v` brought into `lo..=hi`.
pub open spec fn clamp_int(v: int, lo: int, hi: int) -> int {
    if v < lo {
        lo
    } else if v > hi {
        hi
    } else {
        v
    }
}

/// A side of the screen area less a margin (never below zero), kept within `lo..=hi`.
pub open spec fn fit_spec(v: int, margin: int, lo: int, hi: int) -> int {
    clamp_int(if v >= margin { v - margin } else { 0 }, lo, hi)
}

/// A side of the screen area less a margin (never below zero), kept within `lo..=hi`.
pub fn fit(v: u16, margin: u16, lo: u16, hi: u16) -> (r: u16)
    requires
        lo <= hi,
    ensures
        r == fit_spec(v as int, margin as int, lo as int, hi as int),
        lo <= r <= hi,
{
    let inner = v.saturating_sub(margin);
    if inner < lo {
        lo
    } else if inner > hi {
        hi
    } else {
        inner
    }
}

} // verus!
