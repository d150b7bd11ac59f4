//! Motion along a straight line under a constant acceleration.

use vstd::prelude::*;
use crate::physics::{clamped, saturate, truncated_quotient, FACTOR_UNIT};

pub use crate::physics::Position;

verus! {

/// A pair of fixed-point numbers, one per axis, counted in hundredths.
#[derive(Clone, Copy, Debug, PartialEq, Eq, Structural)]
pub struct Direction {
    pub x: i32,
    pub y: i32,
}

/// One coordinate after one step along a line: with `direction` and
/// `acceleration` read as fixed-point factors, it is
/// `position + direction * acceleration`, computed exactly, then rounded
/// towards zero and brought into the range of a coordinate.
pub open spec fn drifted_coordinate(position: int, direction: int, acceleration: int) -> int {
    let unit = FACTOR_UNIT * FACTOR_UNIT;
    clamped(truncated_quotient(position * unit + direction * acceleration, unit))
}

/// The position one step from `position` along `direction`.
pub open spec fn drifted(position: Position, direction: Direction, acceleration: Direction) -> Position {
    Position {
        x: drifted_coordinate(position.x as int, direction.x as int, acceleration.x as int) as i32,
        y: drifted_coordinate(position.y as int, direction.y as int, acceleration.y as int) as i32,
    }
}

proof fn lemma_square_bound(a: int, b: int)
    by (nonlinear_arith)
    requires
        -0x8000_0000 <= a <= 0x8000_0000,
        -0x8000_0000 <= b <= 0x8000_0000,
    ensures
        -0x4000_0000_0000_0000 <= a * b <= 0x4000_0000_0000_0000,
{
}

fn drift(position: i32, direction: i32, acceleration: i32) -> (next: i32)
    ensures
        next == drifted_coordinate(position as int, direction as int, acceleration as int),
{
    proof {
        lemma_square_bound(direction as int, acceleration as int);
    }
    let numerator: i128 = position as i128 * 10_000 + direction as i128 * acceleration as i128;
    saturate(numerator / 10_000)
}

/// The next position of a body at `rectangle_position` that drifts along
/// `direction` under `acceleration`.
pub fn next_position(rectangle_position: Position, direction: Direction, acceleration: Direction) -> (next_pos:
    Position)
    ensures
        next_pos == drifted(rectangle_position, direction, acceleration),
{
    Position {
        x: drift(rectangle_position.x, direction.x, acceleration.x),
        y: drift(rectangle_position.y, direction.y, acceleration.y),
    }
}

} // verus!
