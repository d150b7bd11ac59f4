//! The plain shot.

use vstd::prelude::*;
use crate::asteroid::Asteroid;
use crate::game::Game;
use crate::missile::{Missile, MissileData, MissileType};
use crate::physics::{ChangingFactor, FORTH};
use crate::time;

verus! {

/// The plain shot: it flies straight, and takes one off the size of the
/// asteroid it strikes.
pub struct Normal {}

impl Normal {
    /// What a plain shot starts with: ten pixels a step to the right, and
    /// fifteen shots a second.
    pub fn get_missile_data() -> (data: MissileData)
        ensures
            data == MissileType::Normal.data(),
    {
        MissileData {
            initial_velocity: ChangingFactor { x: 1000, y: 0 },
            direction: ChangingFactor { x: FORTH, y: 0 },
            acceleration: ChangingFactor { x: 0, y: 0 },
            delay: time::to_nano(1000 / 15),
        }
    }

    /// The missile takes one off the asteroid's size and goes out of use.
    pub fn collision_handler(_game: &mut Game, missile: &mut Missile, asteroid: &mut Asteroid)
        ensures
            *final(_game) == *old(_game),
            *final(missile) == (Missile { active: false, ..*old(missile) }),
            *final(asteroid) == old(asteroid).hit(),
    {
        asteroid.size = asteroid.size.saturating_sub(1);
        missile.active = false;
    }
}

} // verus!
