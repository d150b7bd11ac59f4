//! Positions, fixed-point factors and the motion integrator.

use vstd::prelude::*;
use crate::rectangle::Rectangle;

pub mod force;
pub mod linear;

pub use force::Force;

verus! {

/// A point of pixel space.
#[derive(Clone, Copy, Debug, PartialEq, Eq, Structural)]
pub struct Position {
    pub x: i32,
    pub y: i32,
}

/// A pair of fixed-point numbers, one per axis, that stands for a velocity,
/// a direction or an acceleration. Each component counts hundredths: the
/// component `250` is the factor 2.5.
#[derive(Clone, Copy, Debug, PartialEq, Eq, Structural)]
pub struct ChangingFactor {
    pub x: i32,
    pub y: i32,
}

/// The component of a `ChangingFactor` that stands for the factor one.
pub const FACTOR_UNIT: i32 = 100;

/// The component of a direction that points forwards along an axis: to the
/// right, or down.
pub const FORTH: i32 = 100;

/// The component of a direction that points backwards along an axis: to the
/// left, or up.
pub const BACK: i32 = -100;

/// `value` brought into the range of a coordinate or of a component of a
/// factor: a value beyond an end of the range stays at that end.
pub open spec fn clamped(value: int) -> int {
    if value < i32::MIN {
        i32::MIN as int
    } else if value > i32::MAX {
        i32::MAX as int
    } else {
        value
    }
}

/// The number of the range of a coordinate that lies nearest to `value`.
pub fn saturate(value: i128) -> (nearest: i32)
    ensures
        nearest == clamped(value as int),
{
    if value < i32::MIN as i128 {
        i32::MIN
    } else if value > i32::MAX as i128 {
        i32::MAX
    } else {
        value as i32
    }
}

/// The quotient of `numerator` by a positive `denominator`, rounded towards
/// zero.
pub open spec fn truncated_quotient(numerator: int, denominator: int) -> int {
    if numerator >= 0 {
        numerator / denominator
    } else {
        -((-numerator) / denominator)
    }
}

/// The sums of what a list of forces holds, component by component.
pub struct Resultant {
    pub direction_x: int,
    pub direction_y: int,
    pub acceleration_x: int,
    pub acceleration_y: int,
}

/// The resultant of `forces`: all directions summed and all accelerations
/// summed.
pub open spec fn resultant(forces: Seq<Force>) -> Resultant
    decreases forces.len(),
{
    if forces.len() == 0 {
        Resultant { direction_x: 0, direction_y: 0, acceleration_x: 0, acceleration_y: 0 }
    } else {
        let rest = resultant(forces.drop_last());
        let last = forces.last();
        Resultant {
            direction_x: rest.direction_x + last.direction.x,
            direction_y: rest.direction_y + last.direction.y,
            acceleration_x: rest.acceleration_x + last.acceleration.x,
            acceleration_y: rest.acceleration_y + last.acceleration.y,
        }
    }
}

/// One coordinate after one step of motion. With `velocity`, `direction` and
/// `acceleration` read as fixed-point factors, it is
///
/// `position + velocity * direction + (direction * acceleration) / extent`
///
/// computed exactly, then rounded towards zero and brought into the range of
/// a coordinate. An `extent` of zero leaves the last term without a finite
/// value: the coordinate then lies at the end of the axis on the side of the
/// term's sign, and at the origin where the term is zero over zero.
pub open spec fn next_coordinate(
    position: int,
    velocity: int,
    direction: int,
    acceleration: int,
    extent: int,
) -> int {
    if extent == 0 {
        if direction * acceleration > 0 {
            i32::MAX as int
        } else if direction * acceleration < 0 {
            i32::MIN as int
        } else {
            0
        }
    } else {
        let unit = FACTOR_UNIT * FACTOR_UNIT;
        clamped(
            truncated_quotient(
                position * unit * extent + velocity * direction * extent + direction
                    * acceleration,
                unit * extent,
            ),
        )
    }
}

/// The position that follows `rectangle`'s under `current_velocity` and the
/// resultant of `forces`, the rectangle's width and height slowing the
/// acceleration along their axes.
pub open spec fn position_after(
    rectangle: Rectangle,
    current_velocity: ChangingFactor,
    forces: Seq<Force>,
) -> Position {
    let size = Rectangle::extent(rectangle.size);
    let sum = resultant(forces);
    Position {
        x: next_coordinate(
            rectangle.position.x as int,
            current_velocity.x as int,
            sum.direction_x,
            sum.acceleration_x,
            size.width as int,
        ) as i32,
        y: next_coordinate(
            rectangle.position.y as int,
            current_velocity.y as int,
            sum.direction_y,
            sum.acceleration_y,
            size.height as int,
        ) as i32,
    }
}

/// Largest magnitude of a component of the resultant of as many forces as
/// a list can hold.
const RESULTANT_BOUND: i128 = 0x8000_0000_0000_0000_0000_0000;

proof fn lemma_product_sign(a: int, b: int)
    by (nonlinear_arith)
    ensures
        (a > 0 && b > 0) || (a < 0 && b < 0) ==> a * b > 0,
        (a > 0 && b < 0) || (a < 0 && b > 0) ==> a * b < 0,
        a == 0 || b == 0 ==> a * b == 0,
{
}

proof fn lemma_product_bound(a: int, b: int, bound_a: int, bound_b: int)
    by (nonlinear_arith)
    requires
        -bound_a <= a <= bound_a,
        -bound_b <= b <= bound_b,
    ensures
        -(bound_a * bound_b) <= a * b <= bound_a * bound_b,
{
}

/// A numerator far greater than its denominator has a quotient beyond the
/// coordinates.
proof fn lemma_quotient_beyond(numerator: int, denominator: int)
    by (nonlinear_arith)
    requires
        0 < denominator <= 0x4000_0000_0000,
        numerator >= 0x1_0000_0000_0000_0000_0000,
    ensures
        numerator / denominator > i32::MAX,
{
    let q = numerator / denominator;
    let r = numerator % denominator;
    assert(numerator == q * denominator + r && 0 <= r < denominator);
    if q <= 0x7fff_ffff {
        assert(q * denominator <= 0x7fff_ffff * denominator);
        assert(false);
    }
}

proof fn lemma_numerator(
    position: int,
    velocity: int,
    direction: int,
    acceleration: int,
    extent: int,
)
    by (nonlinear_arith)
    ensures
        position * (FACTOR_UNIT * FACTOR_UNIT) * extent + velocity * direction * extent
            + direction * acceleration == position * (10_000 * extent) + direction * (velocity
            * extent + acceleration),
        (FACTOR_UNIT * FACTOR_UNIT) * extent == 10_000 * extent,
{
}

/// A positive coordinate falls with a step against the axis: where the
/// direction is negative and what it is multiplied by, the velocity weighed
/// by the extent and the acceleration, is positive. Without an extent it
/// falls where the acceleration is not negative.
pub proof fn lemma_coordinate_falls(
    position: int,
    velocity: int,
    direction: int,
    acceleration: int,
    extent: int,
)
    requires
        0 < position <= i32::MAX,
        direction < 0,
        extent >= 0,
        extent > 0 ==> velocity * extent + acceleration > 0,
        extent == 0 ==> acceleration >= 0,
    ensures
        next_coordinate(position, velocity, direction, acceleration, extent) < position,
{
    lemma_product_sign(direction, acceleration);
    if extent > 0 {
        let denominator = 10_000 * extent;
        let numerator = position * denominator + direction * (velocity * extent + acceleration);
        lemma_numerator(position, velocity, direction, acceleration, extent);
        lemma_product_sign(direction, velocity * extent + acceleration);
        lemma_quotient_below(numerator, denominator, position);
    }
}

/// A coordinate along which nothing is directed stays where it is.
pub proof fn lemma_coordinate_rests(position: int, velocity: int, acceleration: int, extent: int)
    requires
        i32::MIN <= position <= i32::MAX,
        extent > 0,
    ensures
        next_coordinate(position, velocity, 0, acceleration, extent) == position,
{
    let denominator = 10_000 * extent;
    lemma_numerator(position, velocity, 0, acceleration, extent);
    lemma_product_sign(0, velocity * extent + acceleration);
    lemma_product_sign(0, acceleration);
    lemma_exact_quotient(position, denominator);
}

/// A numerator below a multiple of its denominator has a quotient below
/// the multiplier, rounded towards zero, where the multiplier is positive.
proof fn lemma_quotient_below(numerator: int, denominator: int, bound: int)
    by (nonlinear_arith)
    requires
        denominator > 0,
        bound > 0,
        numerator < bound * denominator,
    ensures
        truncated_quotient(numerator, denominator) < bound,
{
    if numerator >= 0 {
        let q = numerator / denominator;
        let r = numerator % denominator;
        assert(numerator == q * denominator + r && 0 <= r < denominator);
        if q >= bound {
            assert(q * denominator >= bound * denominator);
        }
    } else {
        let q = (-numerator) / denominator;
        assert(q >= 0);
    }
}

/// The quotient of a multiple of the denominator is the multiplier.
proof fn lemma_exact_quotient(multiplier: int, denominator: int)
    by (nonlinear_arith)
    requires
        denominator > 0,
    ensures
        truncated_quotient(multiplier * denominator, denominator) == multiplier,
{
    if multiplier >= 0 {
        assert(multiplier * denominator >= 0);
        let q = (multiplier * denominator) / denominator;
        let r = (multiplier * denominator) % denominator;
        assert(multiplier * denominator == q * denominator + r && 0 <= r < denominator);
        assert((multiplier - q) * denominator == r);
        if multiplier > q {
            assert((multiplier - q) * denominator >= denominator);
        }
        if multiplier < q {
            assert((multiplier - q) * denominator <= -denominator);
        }
    } else {
        assert(multiplier * denominator < 0);
        let q = (-(multiplier * denominator)) / denominator;
        let r = (-(multiplier * denominator)) % denominator;
        assert(-(multiplier * denominator) == q * denominator + r && 0 <= r < denominator);
        assert((-multiplier - q) * denominator == r);
        if -multiplier > q {
            assert((-multiplier - q) * denominator >= denominator);
        }
        if -multiplier < q {
            assert((-multiplier - q) * denominator <= -denominator);
        }
    }
}

/// One coordinate of the next position, from the sums of a resultant.
fn integrate(position: i32, velocity: i32, direction: i128, acceleration: i128, extent: u32) -> (next:
    i32)
    requires
        -RESULTANT_BOUND <= direction <= RESULTANT_BOUND,
        -RESULTANT_BOUND <= acceleration <= RESULTANT_BOUND,
    ensures
        next == next_coordinate(
            position as int,
            velocity as int,
            direction as int,
            acceleration as int,
            extent as int,
        ),
{
    proof {
        lemma_product_sign(direction as int, acceleration as int);
    }
    if extent == 0 {
        if (direction > 0 && acceleration > 0) || (direction < 0 && acceleration < 0) {
            i32::MAX
        } else if direction == 0 || acceleration == 0 {
            0
        } else {
            i32::MIN
        }
    } else {
        let denominator: i128 = 10_000 * (extent as i128);
        proof {
            lemma_product_bound(velocity as int, extent as int, 0x8000_0000, 0xffff_ffff);
            lemma_product_bound(position as int, denominator as int, 0x8000_0000, 0x4000_0000_0000);
            lemma_numerator(
                position as int,
                velocity as int,
                direction as int,
                acceleration as int,
                extent as int,
            );
        }
        let pull: i128 = velocity as i128 * extent as i128 + acceleration;
        let offset: i128 = position as i128 * denominator;
        proof {
            lemma_product_sign(direction as int, pull as int);
        }
        let ghost numerator = offset + direction * pull;
        let quotient: i128 = match direction.checked_mul(pull) {
            None => {
                if (direction > 0) == (pull > 0) {
                    proof {
                        lemma_quotient_beyond(numerator, denominator as int);
                    }
                    i32::MAX as i128
                } else {
                    proof {
                        lemma_quotient_beyond(-numerator, denominator as int);
                    }
                    i32::MIN as i128
                }
            },
            Some(push) => match offset.checked_add(push) {
                None => {
                    if push > 0 {
                        proof {
                            lemma_quotient_beyond(numerator, denominator as int);
                        }
                        i32::MAX as i128
                    } else {
                        proof {
                            lemma_quotient_beyond(-numerator, denominator as int);
                        }
                        i32::MIN as i128
                    }
                },
                Some(sum) => sum / denominator,
            },
        };
        saturate(quotient)
    }
}

/// The next position of `rectangle` under `current_velocity` and `forces`.
pub fn next_position(rectangle: Rectangle, current_velocity: ChangingFactor, forces: Vec<Force>) -> (next_pos:
    Position)
    ensures
        next_pos == position_after(rectangle, current_velocity, forces@),
{
    let mut direction_x: i128 = 0;
    let mut direction_y: i128 = 0;
    let mut acceleration_x: i128 = 0;
    let mut acceleration_y: i128 = 0;
    let mut i: usize = 0;
    while i < forces.len()
        invariant
            i <= forces.len(),
            -(i * 0x8000_0000) <= direction_x <= i * 0x8000_0000,
            -(i * 0x8000_0000) <= direction_y <= i * 0x8000_0000,
            -(i * 0x8000_0000) <= acceleration_x <= i * 0x8000_0000,
            -(i * 0x8000_0000) <= acceleration_y <= i * 0x8000_0000,
            resultant(forces@.take(i as int)) == (Resultant {
                direction_x: direction_x as int,
                direction_y: direction_y as int,
                acceleration_x: acceleration_x as int,
                acceleration_y: acceleration_y as int,
            }),
        decreases forces.len() - i,
    {
        let force = forces[i];
        proof {
            assert(forces@.take(i + 1).drop_last() =~= forces@.take(i as int));
        }
        direction_x = direction_x + force.direction.x as i128;
        direction_y = direction_y + force.direction.y as i128;
        acceleration_x = acceleration_x + force.acceleration.x as i128;
        acceleration_y = acceleration_y + force.acceleration.y as i128;
        i = i + 1;
    }
    proof {
        assert(forces@.take(forces.len() as int) =~= forces@);
    }
    let size = Rectangle::to_rectangle_size(rectangle.size);
    Position {
        x: integrate(rectangle.position.x, current_velocity.x, direction_x, acceleration_x, size.width),
        y: integrate(rectangle.position.y, current_velocity.y, direction_y, acceleration_y, size.height),
    }
}

} // verus!
