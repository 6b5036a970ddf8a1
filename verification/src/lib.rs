//! A small falling-block puzzle engine: a walled playfield grid, a single
//! active piece, and the floor rule that decides when the piece lands.
use vstd::prelude::*;

pub mod block;
pub mod game;
pub mod shapes;

verus! {

/// Restrict `value` to the closed range `[min, max]`, checking the lower
/// bound first.
pub fn clamp(min: u16, value: u16, max: u16) -> (r: u16)
    ensures
        r == (if value < min {
            min
        } else if value > max {
            max
        } else {
            value
        }),
{
    let mut v = value;
    if v < min {
        v = min;
    } else if v > max {
        v = max;
    }
    v
}

} // verus!
