//! The game as a mathematical value, and what every step of a frame makes
//! of it.

use vstd::prelude::*;
use crate::asteroid::{
    advanced_field,
    appearing_in,
    capped,
    fresh_field,
    in_lanes,
    is_empty_field,
    lanes,
    pruned_field,
    Asteroid,
};
use crate::game::{DebugOptions, Game, ShootingInfo, Spaceship, State};
use crate::helper::{Event, Keycode, MouseButton, U2GMessage};
use crate::missile::{advanced_pool, placed, sorted_for_reuse, Missile, MissileType};
use crate::physics::{clamped, truncated_quotient, Position};
use crate::settings::{
    ASTEROIDS_ROWS,
    ASTEROIDS_ROWS_HEIGHT,
    MAX_GENERATED_ASTEROIDS,
    MIN_GENERATED_ASTEROIDS,
    NEXT_GENERATION_DELAY,
    SPACESHIP_HEIGHT,
    SPACESHIP_WIDTH,
};

verus! {

/// A game as a mathematical value: the field as sequences of asteroids, the
/// pool as a sequence of missiles.
pub struct GameView {
    pub spaceship: Spaceship,
    pub asteroids: Seq<Seq<Asteroid>>,
    pub missiles: Seq<Missile>,
    pub shooting_info: ShootingInfo,
    pub state: State,
    pub debug_options: DebugOptions,
    pub debugging: bool,
}

impl View for Game {
    type V = GameView;

    open spec fn view(&self) -> GameView {
        GameView {
            spaceship: self.spaceship,
            asteroids: lanes(self.asteroids),
            missiles: self.missiles@,
            shooting_info: self.shooting_info,
            state: self.state,
            debug_options: self.debug_options,
            debugging: self.debugging,
        }
    }
}

/// The height at which the middle of lane `row` lies.
pub open spec fn lane_center(row: int) -> int {
    ASTEROIDS_ROWS_HEIGHT * row + ASTEROIDS_ROWS_HEIGHT / 2
}

/// The lane in which the height `y_position` lies: the height divided by
/// the height of a lane, rounded towards zero. A negative result is no lane.
pub open spec fn lane_of(y_position: int) -> int {
    truncated_quotient(y_position, ASTEROIDS_ROWS_HEIGHT as int)
}

/// The time `delay` nanoseconds after `time`, as far as a timestamp can
/// hold it.
pub open spec fn later(time: u128, delay: u128) -> u128 {
    if time + delay > u128::MAX {
        u128::MAX
    } else {
        (time + delay) as u128
    }
}

/// The spaceship and the state after `asteroid` had its turn to crash into
/// the spaceship: an asteroid that passes the spaceship takes its size off
/// the life, and one that takes all that is left ends the game.
pub open spec fn struck_by(ship: Spaceship, state: State, asteroid: Asteroid) -> (Spaceship, State) {
    if asteroid.crossing(ship.position.x as int) {
        if ship.life > asteroid.size {
            (Spaceship { life: (ship.life - asteroid.size) as u8, ..ship }, state)
        } else {
            (Spaceship { life: 0, ..ship }, State::Died)
        }
    } else {
        (ship, state)
    }
}

/// The spaceship and the state after the asteroids of `lane` had their turn,
/// one after the other.
pub open spec fn crashed_into_by_lane(ship: Spaceship, state: State, lane: Seq<Asteroid>) -> (
    Spaceship,
    State,
)
    decreases lane.len(),
{
    if lane.len() == 0 {
        (ship, state)
    } else {
        let before = crashed_into_by_lane(ship, state, lane.drop_last());
        struck_by(before.0, before.1, lane.last())
    }
}

/// The spaceship and the state after the asteroids of `field` had their
/// turn, lane by lane.
pub open spec fn crashed_into_by_field(ship: Spaceship, state: State, field: Seq<Seq<Asteroid>>) -> (
    Spaceship,
    State,
)
    decreases field.len(),
{
    if field.len() == 0 {
        (ship, state)
    } else {
        let before = crashed_into_by_field(ship, state, field.drop_last());
        crashed_into_by_lane(before.0, before.1, field.last())
    }
}

/// The field with the asteroids of `extra` added, each at the end of its
/// lane, one after the other.
pub open spec fn with_spawned(field: Seq<Seq<Asteroid>>, extra: Seq<Asteroid>) -> Seq<Seq<Asteroid>>
    decreases extra.len(),
{
    if extra.len() == 0 {
        field
    } else {
        let before = with_spawned(field, extra.drop_last());
        let row = extra.last().row as int;
        before.update(row, before[row].push(extra.last()))
    }
}

impl GameView {
    /// Whether the game is well formed: its field has the configured number
    /// of lanes, and every asteroid lies in the lane that holds it.
    pub open spec fn wf(self) -> bool {
        self.asteroids.len() == ASTEROIDS_ROWS && in_lanes(self.asteroids)
    }

    /// Whether the game goes on: it is neither over nor closed.
    pub open spec fn active(self) -> bool {
        self.state is Running || self.state is Paused || self.state is NextGen
    }

    /// Whether new asteroids are generated: always, unless debugging has
    /// switched generation off.
    pub open spec fn generating(self) -> bool {
        !self.debugging || self.debug_options.asteroid_generation
    }

    /// The game after a look at the field at time `now`: a running game
    /// whose field is empty waits for the next generation.
    pub open spec fn empty_field_noticed(self, now: u128) -> GameView {
        if self.state is Running && is_empty_field(self.asteroids) {
            GameView { state: State::NextGen(later(now, NEXT_GENERATION_DELAY)), ..self }
        } else {
            self
        }
    }

    /// Whether the next generation is due at time `now`.
    pub open spec fn generation_due(self, now: u128) -> bool {
        self.generating() && match self.state {
            State::NextGen(next_gen_timestamp) => now >= next_gen_timestamp,
            _ => false,
        }
    }

    /// The game after the next generation, `field`, has come where it is due
    /// at time `now`.
    pub open spec fn regenerated(self, now: u128, field: Seq<Seq<Asteroid>>) -> GameView {
        if self.generation_due(now) {
            GameView { asteroids: field, state: State::Running, ..self }
        } else {
            self
        }
    }

    /// The game after every asteroid had its turn to crash into the
    /// spaceship, unless debugging has made the spaceship invincible.
    pub open spec fn crashed(self) -> GameView {
        if self.debugging && self.debug_options.invincible {
            self
        } else {
            let after = crashed_into_by_field(self.spaceship, self.state, self.asteroids);
            GameView { spaceship: after.0, state: after.1, ..self }
        }
    }

    /// Whether the spaceship fires at time `now`: it is shooting, and the
    /// delay since its last shot has passed.
    pub open spec fn firing(self, now: u128) -> bool {
        self.spaceship.shooting && now >= later(
            self.shooting_info.last_shot_time,
            self.shooting_info.delay_to_next_shot,
        )
    }

    /// The place at which a missile leaves the spaceship.
    pub open spec fn nose(self) -> Position {
        Position {
            x: clamped(self.spaceship.position.x + SPACESHIP_WIDTH / 2) as i32,
            y: clamped(self.spaceship.position.y + SPACESHIP_HEIGHT / 2) as i32,
        }
    }

    /// The game after the spaceship had its turn to fire at time `now`: a
    /// missile of the chosen type takes a free slot of the pool, and the
    /// next shot has to wait for the delay of that type.
    pub open spec fn fired(self, now: u128) -> GameView {
        if self.firing(now) {
            GameView {
                missiles: placed(
                    self.missiles,
                    Missile::launched(self.spaceship.missile_type, self.nose()),
                ),
                shooting_info: ShootingInfo {
                    last_shot_time: now,
                    delay_to_next_shot: self.spaceship.missile_type.data().delay,
                },
                ..self
            }
        } else {
            self
        }
    }

    /// The game with its pool reordered for reuse.
    pub open spec fn pool_sorted(self) -> GameView {
        GameView { missiles: sorted_for_reuse(self.missiles), ..self }
    }

    /// The game after the missile that slot `i` of `snapshot` holds had its
    /// turn to strike. An active missile strikes the first asteroid of its
    /// own lane inside which one of its corners lies: the asteroid is hit,
    /// and the missile does what its type does on a collision. A missile
    /// that lies in no lane, or overlaps no asteroid of its lane, does
    /// nothing.
    pub open spec fn resolved(self, snapshot: Seq<Missile>, i: int) -> GameView {
        let missile = snapshot[i];
        let lane = lane_of(missile.position.y as int);
        if !missile.active || lane < 0 || lane >= self.asteroids.len() {
            self
        } else {
            let hit = missile.first_hit(self.asteroids[lane]);
            if hit >= self.asteroids[lane].len() {
                self
            } else {
                GameView {
                    missiles: missile.scattered(self.missiles).update(i, missile.struck()),
                    asteroids: self.asteroids.update(
                        lane,
                        self.asteroids[lane].update(hit, self.asteroids[lane][hit].hit()),
                    ),
                    ..self
                }
            }
        }
    }

    /// The game after the missiles of the first `count` slots of `snapshot`
    /// had their turn to strike, one after the other.
    pub open spec fn collided_upto(self, snapshot: Seq<Missile>, count: nat) -> GameView
        decreases count,
    {
        if count == 0 {
            self
        } else {
            self.collided_upto(snapshot, (count - 1) as nat).resolved(snapshot, count - 1)
        }
    }

    /// The game after every missile that was in the pool had its turn to
    /// strike. The fragments that come into the pool meanwhile have none.
    pub open spec fn collided(self) -> GameView {
        self.collided_upto(self.missiles, self.missiles.len())
    }

    /// The game with every missile one step on.
    pub open spec fn missiles_advanced(self) -> GameView {
        GameView { missiles: advanced_pool(self.missiles), ..self }
    }

    /// How many asteroids are to be added to the field: one for each that
    /// is about to pass the generation line, as far as an `i32` can count
    /// them.
    pub open spec fn wanted(self) -> int {
        if self.generating() {
            capped(appearing_in(self.asteroids))
        } else {
            0
        }
    }

    /// Whether `extra` can be the asteroids that are added to the field:
    /// they are as many as are wanted, and each is new and lies in a lane of
    /// the field.
    pub open spec fn spawning(self, extra: Seq<Asteroid>) -> bool {
        &&& extra.len() == self.wanted()
        &&& forall|i: int|
            0 <= i < extra.len() ==> (#[trigger] extra[i]).fresh() && extra[i].row < ASTEROIDS_ROWS
    }

    /// The game with the asteroids of `extra` added to the field.
    pub open spec fn spawned(self, extra: Seq<Asteroid>) -> GameView {
        GameView { asteroids: with_spawned(self.asteroids, extra), ..self }
    }

    /// The game with every asteroid one step on.
    pub open spec fn asteroids_advanced(self) -> GameView {
        GameView { asteroids: advanced_field(self.asteroids), ..self }
    }

    /// The game without the asteroids that are no longer in use.
    pub open spec fn pruned(self) -> GameView {
        GameView { asteroids: pruned_field(self.asteroids), ..self }
    }

    /// The game of time `now` as far into a frame as the point at which new
    /// asteroids are added, with `field` as the next generation where one is
    /// due: the field is looked at and generated anew, the asteroids crash,
    /// the pool is reordered, the spaceship fires, the missiles strike and
    /// move.
    pub open spec fn before_spawn(self, now: u128, field: Seq<Seq<Asteroid>>) -> GameView {
        self.empty_field_noticed(now).regenerated(
            now,
            field,
        ).crashed().pool_sorted().fired(now).collided().missiles_advanced()
    }

    /// Whether `field` and `extra` can be what one frame at time `now`
    /// generates: `field` is a new field where the next generation is due,
    /// and `extra` are the asteroids that are wanted then.
    pub open spec fn generates(self, now: u128, field: Seq<Seq<Asteroid>>, extra: Seq<Asteroid>) -> bool {
        &&& self.empty_field_noticed(now).generation_due(now) ==> fresh_field(
            field,
            ASTEROIDS_ROWS as int,
            MIN_GENERATED_ASTEROIDS as int,
            MAX_GENERATED_ASTEROIDS as int,
        )
        &&& self.before_spawn(now, field).spawning(extra)
    }

    /// The game after one frame at time `now` that generates `field` and
    /// `extra`: after what comes before the new asteroids, these are added,
    /// all asteroids move, and those out of use are dropped.
    pub open spec fn updated(self, now: u128, field: Seq<Seq<Asteroid>>, extra: Seq<Asteroid>) -> GameView {
        self.before_spawn(now, field).spawned(extra).asteroids_advanced().pruned()
    }

    /// Whether frames pass: the game is neither paused nor closed nor over.
    pub open spec fn frames_pass(self) -> bool {
        self.state is Running || self.state is NextGen
    }

    /// Whether `field` and `extra` can be what one step at time `now`
    /// generates: what its frame generates, where a frame passes.
    pub open spec fn steps(
        self,
        messages: Seq<U2GMessage>,
        now: u128,
        field: Seq<Seq<Asteroid>>,
        extra: Seq<Asteroid>,
    ) -> bool {
        let read = self.after_messages(messages);
        self.active() && read.frames_pass() ==> read.generates(now, field, extra)
    }

    /// The game after one step at time `now` that generates `field` and
    /// `extra`. A game that is over or closed stays as it is. Any other
    /// reads `messages`, and then lets a frame pass, unless it is paused,
    /// closed or over by then.
    pub open spec fn stepped(
        self,
        messages: Seq<U2GMessage>,
        now: u128,
        field: Seq<Seq<Asteroid>>,
        extra: Seq<Asteroid>,
    ) -> GameView {
        let read = self.after_messages(messages);
        if !self.active() {
            self
        } else if read.frames_pass() {
            read.updated(now, field, extra)
        } else {
            read
        }
    }

    /// The game after it has read `message`.
    pub open spec fn after_message(self, message: U2GMessage) -> GameView {
        match message {
            U2GMessage::MouseMotion(mouse_position) => GameView {
                spaceship: Spaceship {
                    position: Position {
                        x: self.spaceship.position.x,
                        y: clamped(mouse_position.y - SPACESHIP_HEIGHT / 2) as i32,
                    },
                    ..self.spaceship
                },
                ..self
            },
            U2GMessage::Event(Event::MouseButtonDown(MouseButton::Left)) => GameView {
                spaceship: Spaceship {
                    missile_type: MissileType::Normal,
                    shooting: true,
                    ..self.spaceship
                },
                ..self
            },
            U2GMessage::Event(Event::MouseButtonUp(MouseButton::Left)) => GameView {
                spaceship: Spaceship {
                    missile_type: MissileType::Normal,
                    shooting: false,
                    ..self.spaceship
                },
                ..self
            },
            U2GMessage::Event(Event::MouseButtonDown(MouseButton::Right)) => GameView {
                spaceship: Spaceship {
                    missile_type: MissileType::Bomb,
                    shooting: true,
                    ..self.spaceship
                },
                ..self
            },
            U2GMessage::Event(Event::MouseButtonUp(MouseButton::Right)) => GameView {
                spaceship: Spaceship {
                    missile_type: MissileType::Bomb,
                    shooting: false,
                    ..self.spaceship
                },
                ..self
            },
            U2GMessage::Event(Event::KeyDown(Keycode::Escape)) => match self.state {
                State::Running => GameView { state: State::Paused, ..self },
                State::Paused => GameView { state: State::Running, ..self },
                _ => self,
            },
            U2GMessage::Event(Event::KeyDown(Keycode::F5)) => GameView {
                debugging: !self.debugging,
                ..self
            },
            U2GMessage::Event(Event::KeyDown(Keycode::F6)) => GameView {
                debug_options: DebugOptions {
                    generation_line: !self.debug_options.generation_line,
                    ..self.debug_options
                },
                ..self
            },
            U2GMessage::Event(Event::KeyDown(Keycode::F7)) => GameView {
                debug_options: DebugOptions { rows: !self.debug_options.rows, ..self.debug_options },
                ..self
            },
            U2GMessage::Event(Event::KeyDown(Keycode::F8)) => GameView {
                debug_options: DebugOptions {
                    game_state: !self.debug_options.game_state,
                    ..self.debug_options
                },
                ..self
            },
            U2GMessage::Event(Event::KeyDown(Keycode::F9)) => GameView {
                debug_options: DebugOptions {
                    invincible: !self.debug_options.invincible,
                    ..self.debug_options
                },
                ..self
            },
            U2GMessage::Event(Event::KeyDown(Keycode::F10)) => GameView {
                debug_options: DebugOptions {
                    asteroid_generation: !self.debug_options.asteroid_generation,
                    ..self.debug_options
                },
                ..self
            },
            U2GMessage::Event(Event::Quit) => GameView { state: State::Closed, ..self },
            U2GMessage::Event(_) => self,
            U2GMessage::Close => GameView { state: State::Closed, ..self },
        }
    }

    /// The game after it has read `messages`, one after the other.
    pub open spec fn after_messages(self, messages: Seq<U2GMessage>) -> GameView
        decreases messages.len(),
    {
        if messages.len() == 0 {
            self
        } else {
            self.after_messages(messages.drop_last()).after_message(messages.last())
        }
    }
}

} // verus!
