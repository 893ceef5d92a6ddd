//! Tilt of the board, as read from the accelerometer.

use vstd::prelude::*;

verus! {

/// The way the board is tilted.
#[derive(Clone, Copy, PartialEq, Eq, Debug, Structural)]
pub enum Orientation {
    Up,
    Down,
    Left,
    Right,
    Unknown,
}

impl Orientation {
    /// The tilt that an acceleration of `x_mg` along the x axis shows: left
    /// where it is positive, right where it is negative, unknown at rest.
    pub fn from_x_mg(x_mg: i32) -> (tilt: Self)
        ensures
            x_mg > 0 ==> tilt == Orientation::Left,
            x_mg < 0 ==> tilt == Orientation::Right,
            x_mg == 0 ==> tilt == Orientation::Unknown,
    {
        if x_mg > 0 {
            Orientation::Left
        } else if x_mg < 0 {
            Orientation::Right
        } else {
            Orientation::Unknown
        }
    }
}

} // verus!
