//! The shot that bursts into fragments.

use vstd::prelude::*;
use crate::asteroid::Asteroid;
use crate::game::{Game, GameView};
use crate::missile::missiles::Normal;
use crate::missile::{
    fragment,
    fragment_direction,
    lemma_live_count_with_fragments,
    live_count,
    with_fragments,
    Missile,
    MissileData,
    MissileType,
    FRAGMENTS,
};
use crate::physics::{ChangingFactor, BACK, FORTH};
use crate::time;

verus! {

/// The bomb: it flies straight, and bursts into fragments on the asteroid
/// it strikes.
pub struct Bomb {}

impl Bomb {
    /// What a bomb starts with: three pixels a step to the right that an
    /// acceleration of twenty adds to, and ten shots a second.
    pub fn get_missile_data() -> (data: MissileData)
        ensures
            data == MissileType::Bomb.data(),
    {
        MissileData {
            initial_velocity: ChangingFactor { x: 300, y: 0 },
            direction: ChangingFactor { x: FORTH, y: 0 },
            acceleration: ChangingFactor { x: 2000, y: 0 },
            delay: time::to_nano(1000 / 10),
        }
    }

    /// The direction of fragment `index`.
    pub fn lookup_direction(index: usize) -> (direction: ChangingFactor)
        requires
            index < FRAGMENTS,
        ensures
            direction == fragment_direction(index as int),
    {
        if index == 0 {
            ChangingFactor { x: BACK, y: BACK }
        } else if index == 1 {
            ChangingFactor { x: 0, y: BACK }
        } else if index == 2 {
            ChangingFactor { x: FORTH, y: BACK }
        } else if index == 3 {
            ChangingFactor { x: FORTH, y: 0 }
        } else if index == 4 {
            ChangingFactor { x: FORTH, y: FORTH }
        } else {
            ChangingFactor { x: 0, y: FORTH }
        }
    }

    /// The bomb takes one off the asteroid's size and bursts where it is:
    /// its first fragment takes its place, the others go into the pool.
    pub fn collision_handler(game: &mut Game, missile: &mut Missile, asteroid: &mut Asteroid)
        ensures
            *final(asteroid) == old(asteroid).hit(),
            *final(missile) == fragment(old(missile).position, 0),
            final(game)@ == (GameView {
                missiles: with_fragments(old(game)@.missiles, old(missile).position, 1),
                ..old(game)@
            }),
            live_count(final(game)@.missiles, MissileType::Normal) == live_count(
                old(game)@.missiles,
                MissileType::Normal,
            ) + 5,
    {
        proof {
            lemma_live_count_with_fragments(old(game)@.missiles, old(missile).position, 1);
        }
        missile.active = false;
        asteroid.size = asteroid.size.saturating_sub(1);
        let position = missile.position;
        let speed = Normal::get_missile_data().initial_velocity.x / 2;
        let mut missile_i: usize = 0;
        while missile_i < FRAGMENTS
            invariant
                missile_i <= FRAGMENTS,
                speed == (MissileType::Normal.data().initial_velocity.x / 2) as i32,
                missile_i == 0 ==> *game == *old(game),
                missile_i > 0 ==> *missile == fragment(position, 0),
                missile_i > 0 ==> game@ == (GameView { missiles: game@.missiles, ..old(game)@ }),
                missile_i > 0 ==> with_fragments(game@.missiles, position, missile_i as int)
                    == with_fragments(old(game)@.missiles, position, 1),
            decreases FRAGMENTS - missile_i,
        {
            let next_missile = Missile {
                active: true,
                velocity: ChangingFactor { x: speed, y: speed },
                acceleration: ChangingFactor { x: 0, y: 0 },
                direction: Bomb::lookup_direction(missile_i),
                missile_type: MissileType::Normal,
                position,
            };
            assert(next_missile == fragment(position, missile_i as int));
            if missile_i == 0 {
                *missile = next_missile;
            } else {
                Missile::place(&mut game.missiles, next_missile);
            }
            missile_i = missile_i + 1;
        }
    }
}

} // verus!
