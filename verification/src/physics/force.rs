//! Forces and their composition.

use vstd::prelude::*;
use crate::physics::{clamped, saturate, ChangingFactor};

verus! {

/// A pull along `direction` of strength `acceleration`.
#[derive(Clone, Copy, Debug, PartialEq, Eq, Structural)]
pub struct Force {
    pub direction: ChangingFactor,
    pub acceleration: ChangingFactor,
}

impl Force {
    /// The sum of `self` and `force`, component by component. A component
    /// beyond what a factor can hold stays at the end of the range.
    pub open spec fn plus(self, force: Force) -> Force {
        Force {
            direction: ChangingFactor {
                x: clamped(self.direction.x + force.direction.x) as i32,
                y: clamped(self.direction.y + force.direction.y) as i32,
            },
            acceleration: ChangingFactor {
                x: clamped(self.acceleration.x + force.acceleration.x) as i32,
                y: clamped(self.acceleration.y + force.acceleration.y) as i32,
            },
        }
    }

    /// Adds `force` to `self`, component by component.
    pub fn add_force(&mut self, force: Force)
        ensures
            *final(self) == old(self).plus(force),
    {
        self.direction = ChangingFactor {
            x: saturate(self.direction.x as i128 + force.direction.x as i128),
            y: saturate(self.direction.y as i128 + force.direction.y as i128),
        };
        self.acceleration = ChangingFactor {
            x: saturate(self.acceleration.x as i128 + force.acceleration.x as i128),
            y: saturate(self.acceleration.y as i128 + force.acceleration.y as i128),
        };
    }
}

} // verus!
