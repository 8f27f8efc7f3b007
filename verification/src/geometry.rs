//! Coordinates of a drawing and their transform to the board's own space.
//!
//! A drawing is given in tenths of a millimetre with the origin at the top
//! left and y growing downward. The board counts the same unit from its
//! bottom left corner, so a point is flipped vertically and pinned to the
//! nearest edge of the board before it is sent.

use vstd::prelude::*;
use crate::command::{IBB_HEIGHT, IBB_WIDTH};

verus! {

/// Largest x coordinate of the board, in tenths of a millimetre.
pub const DEVICE_WIDTH: u16 = 3580;

/// Largest y coordinate of the board, in tenths of a millimetre.
pub const DEVICE_HEIGHT: u16 = 1230;

/// A point of a drawing, in tenths of a millimetre, y growing downward.
#[derive(Debug, Clone, Copy, PartialEq, Eq, Structural)]
pub struct CoordinatePair {
    pub x: i64,
    pub y: i64,
}

/// An ordered list of points that is drawn as one stroke of the pen.
pub type Polyline = Vec<CoordinatePair>;

/// The views of a list of vectors.
pub open spec fn views<T>(items: Seq<Vec<T>>) -> Seq<Seq<T>> {
    items.map_values(|item: Vec<T>| item@)
}

/// `value` pinned to the interval from `low` to `high`.
pub open spec fn clamp(value: int, low: int, high: int) -> int {
    if value < low {
        low
    } else if value > high {
        high
    } else {
        value
    }
}

/// The board's x coordinate for the x coordinate of a drawing.
pub open spec fn device_x(x: int) -> int {
    clamp(x, 0, 10 * IBB_WIDTH)
}

/// The board's y coordinate for the y coordinate of a drawing.
pub open spec fn device_y(y: int) -> int {
    clamp(10 * IBB_HEIGHT - y, 0, 10 * IBB_HEIGHT)
}

impl CoordinatePair {
    pub fn new(x: i64, y: i64) -> (point: Self)
        ensures
            point.x == x,
            point.y == y,
    {
        CoordinatePair { x, y }
    }
}

/// Clamp x coordinate.
pub fn fix_x(x: i64) -> (fixed: u16)
    ensures
        fixed == device_x(x as int),
        fixed <= DEVICE_WIDTH,
{
    if x < 0 {
        0
    } else if x > 3580 {
        DEVICE_WIDTH
    } else {
        x as u16
    }
}

/// Invert and clamp y coordinate.
pub fn fix_y(y: i64) -> (fixed: u16)
    ensures
        fixed == device_y(y as int),
        fixed <= DEVICE_HEIGHT,
{
    // A drawing has its origin at the top left, the board at the bottom left.
    if y >= 1230 {
        0
    } else if y < 0 {
        DEVICE_HEIGHT
    } else {
        (1230 - y) as u16
    }
}

} // verus!
