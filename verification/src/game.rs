//! The game: its state and the steps of one frame.

use vstd::prelude::*;
use crate::asteroid::{fresh_field, is_empty_field, lanes, Asteroid};
use crate::helper::{Event, G2UMessage, Keycode, MouseButton, U2GMessage};
use crate::missile::{lemma_with_fragments, Missile, MissileType};
use crate::physics::{saturate, Position};
use crate::random::thread_generator;
use crate::settings::{
    default_debug_options,
    every_debug_option,
    initial_spaceship_position,
    ASTEROIDS_ROWS,
    ASTEROIDS_ROWS_HEIGHT,
    DEBUG,
    INITIAL_SPACESHIP_X,
    INITIAL_SPACESHIP_Y,
    MAX_GENERATED_ASTEROIDS,
    MIN_GENERATED_ASTEROIDS,
    NEXT_GENERATION_DELAY,
    SPACESHIP_HEIGHT,
    SPACESHIP_LIFE,
    SPACESHIP_WIDTH,
};
use crate::time;

pub mod laws;
pub mod view;

pub use view::{
    crashed_into_by_field,
    crashed_into_by_lane,
    lane_center,
    lane_of,
    later,
    struck_by,
    with_spawned,
    GameView,
};

verus! {


/// The asteroids of one lane.
pub type AsteroidRow = Vec<Asteroid>;

/// The asteroids of the field, lane by lane from the top.
pub type AsteroidRows = Vec<AsteroidRow>;

/// When the last missile was fired and how long the next one has to wait,
/// both in nanoseconds.
#[derive(Clone, Copy, Debug, PartialEq, Eq, Structural)]
pub struct ShootingInfo {
    pub last_shot_time: u128,
    pub delay_to_next_shot: u128,
}

/// The spaceship: where it is, how much life it has left, whether it is
/// shooting, and what it shoots.
#[derive(Clone, Copy, Debug, PartialEq, Eq, Structural)]
pub struct Spaceship {
    pub position: Position,
    pub life: u8,
    pub shooting: bool,
    pub missile_type: MissileType,
}

/// The state of the game. `NextGen` holds the time at which the field is
/// generated anew.
#[derive(Clone, Copy, Debug, PartialEq, Eq, Structural)]
pub enum State {
    Running,
    Paused,
    Closed,
    Died,
    NextGen(u128),
}

/// What debugging shows and switches off.
#[derive(Clone, Copy, Debug, PartialEq, Eq, Structural)]
pub struct DebugOptions {
    pub generation_line: bool,
    pub rows: bool,
    pub game_state: bool,
    pub invincible: bool,
    pub asteroid_generation: bool,
}

/// The game: the spaceship, the field of asteroids lane by lane, the pool
/// of missiles, and the state.
#[derive(Clone, Debug)]
pub struct Game {
    pub spaceship: Spaceship,
    pub asteroids: AsteroidRows,
    pub missiles: Vec<Missile>,
    pub shooting_info: ShootingInfo,
    pub state: State,
    pub debug_options: DebugOptions,
    pub debugging: bool,
}

impl Game {
    /// A game at its start, at the current time: a spaceship with all its
    /// life, a new field, no missile.
    pub fn new() -> (game: Game)
        ensures
            game@.wf(),
            fresh_field(
                game@.asteroids,
                ASTEROIDS_ROWS as int,
                MIN_GENERATED_ASTEROIDS as int,
                MAX_GENERATED_ASTEROIDS as int,
            ),
            game@.missiles.len() == 0,
            game.spaceship == (Spaceship {
                position: Position { x: INITIAL_SPACESHIP_X, y: INITIAL_SPACESHIP_Y },
                life: SPACESHIP_LIFE,
                shooting: false,
                missile_type: MissileType::Normal,
            }),
            game.shooting_info.delay_to_next_shot == 0,
            game.state == State::Running,
            game.debug_options == every_debug_option(),
            game.debugging == DEBUG,
    {
        Game {
            spaceship: Spaceship {
                position: initial_spaceship_position(),
                life: SPACESHIP_LIFE,
                shooting: false,
                missile_type: MissileType::Normal,
            },
            shooting_info: ShootingInfo { last_shot_time: time::now(), delay_to_next_shot: 0 },
            asteroids: Asteroid::initialize_asteroids(
                ASTEROIDS_ROWS,
                MIN_GENERATED_ASTEROIDS,
                MAX_GENERATED_ASTEROIDS,
            ),
            missiles: Vec::new(),
            state: State::Running,
            debug_options: default_debug_options(),
            debugging: DEBUG,
        }
    }

    /// Whether the game is well formed: its field has the configured number
    /// of lanes, and every asteroid lies in the lane that holds it.
    pub fn is_well_formed(&self) -> (well_formed: bool)
        ensures
            well_formed == self@.wf(),
    {
        if self.asteroids.len() != ASTEROIDS_ROWS {
            return false;
        }
        let mut r: usize = 0;
        while r < self.asteroids.len()
            invariant
                r <= self.asteroids.len(),
                forall|i: int, k: int|
                    0 <= i < r && 0 <= k < self@.asteroids[i].len() ==> (
                    #[trigger] self@.asteroids[i][k]).row == i,
            decreases self.asteroids.len() - r,
        {
            let row = &self.asteroids[r];
            let mut k: usize = 0;
            while k < row.len()
                invariant
                    k <= row.len(),
                    r < self.asteroids.len(),
                    row@ == self@.asteroids[r as int],
                    forall|j: int| 0 <= j < k ==> (#[trigger] self@.asteroids[r as int][j]).row == r,
                decreases row.len() - k,
            {
                if row[k].row != r {
                    assert(self@.asteroids[r as int][k as int].row != r);
                    return false;
                }
                k = k + 1;
            }
            r = r + 1;
        }
        true
    }

    /// Whether the game goes on: it is neither over nor closed.
    pub fn is_active(&self) -> (active: bool)
        ensures
            active == self@.active(),
    {
        match self.state {
            State::Running | State::Paused | State::NextGen(_) => true,
            _ => false,
        }
    }

    /// Looks at the field at time `now`: a running game whose field is
    /// empty waits for the next generation.
    pub fn check_next_generation(&mut self, now: u128)
        ensures
            final(self)@ == old(self)@.empty_field_noticed(now),
            old(self)@.wf() ==> final(self)@.wf(),
    {
        if let State::Running = self.state {
            let mut empty = true;
            let mut r: usize = 0;
            while r < self.asteroids.len()
                invariant
                    r <= self.asteroids.len(),
                    *self == *old(self),
                    empty == is_empty_field(self@.asteroids.take(r as int)),
                decreases self.asteroids.len() - r,
            {
                if self.asteroids[r].len() != 0 {
                    empty = false;
                    assert(self@.asteroids.take(r + 1)[r as int].len() != 0);
                }
                proof {
                    if empty {
                        assert forall|i: int| 0 <= i < r + 1 implies (#[trigger] self@.asteroids.take(
                            r + 1,
                        )[i]).len() == 0 by {
                            if i < r {
                                assert(self@.asteroids.take(r as int)[i].len() == 0);
                            }
                        }
                    } else if self.asteroids[r as int].len() == 0 {
                        let i = choose|i: int|
                            0 <= i < r && (#[trigger] self@.asteroids.take(r as int)[i]).len() != 0;
                        assert(self@.asteroids.take(r + 1)[i].len() != 0);
                    }
                }
                r = r + 1;
            }
            assert(self@.asteroids.take(self.asteroids.len() as int) =~= self@.asteroids);
            if empty {
                self.state = State::NextGen(now.saturating_add(NEXT_GENERATION_DELAY));
            }
        }
    }

    /// Generates the field anew where that is due at time `now`.
    pub fn next_generation(&mut self, now: u128)
        ensures
            final(self)@ == old(self)@.regenerated(now, final(self)@.asteroids),
            old(self)@.generation_due(now) ==> fresh_field(
                final(self)@.asteroids,
                ASTEROIDS_ROWS as int,
                MIN_GENERATED_ASTEROIDS as int,
                MAX_GENERATED_ASTEROIDS as int,
            ),
            old(self)@.wf() ==> final(self)@.wf(),
    {
        if !self.debugging || self.debug_options.asteroid_generation {
            if let State::NextGen(next_gen_timestamp) = self.state {
                if now >= next_gen_timestamp {
                    self.asteroids = Asteroid::initialize_asteroids(
                        ASTEROIDS_ROWS,
                        MIN_GENERATED_ASTEROIDS,
                        MAX_GENERATED_ASTEROIDS,
                    );
                    self.state = State::Running;
                }
            }
        }
    }

    /// Lets every asteroid have its turn to crash into the spaceship,
    /// unless debugging has made the spaceship invincible.
    pub fn check_spaceship_crash(&mut self)
        ensures
            final(self)@ == old(self)@.crashed(),
            old(self)@.wf() ==> final(self)@.wf(),
    {
        if self.debugging && self.debug_options.invincible {
            return;
        }
        let ghost field = self@.asteroids;
        let mut r: usize = 0;
        while r < self.asteroids.len()
            invariant
                r <= self.asteroids.len(),
                field == self@.asteroids,
                self@ == (GameView { spaceship: self.spaceship, state: self.state, ..old(self)@ }),
                (self.spaceship, self.state) == crashed_into_by_field(
                    old(self).spaceship,
                    old(self).state,
                    field.take(r as int),
                ),
            decreases self.asteroids.len() - r,
        {
            let ghost lane = field[r as int];
            let ghost before = (self.spaceship, self.state);
            let mut k: usize = 0;
            while k < self.asteroids[r].len()
                invariant
                    r < self.asteroids.len(),
                    k <= self.asteroids[r as int].len(),
                    field == self@.asteroids,
                    lane == field[r as int],
                    self@ == (GameView { spaceship: self.spaceship, state: self.state, ..old(self)@ }),
                    (self.spaceship, self.state) == crashed_into_by_lane(
                        before.0,
                        before.1,
                        lane.take(k as int),
                    ),
                decreases self.asteroids[r as int].len() - k,
            {
                let asteroid = self.asteroids[r][k];
                proof {
                    assert(lane.take(k + 1).drop_last() =~= lane.take(k as int));
                }
                if asteroid.is_crossing(self.spaceship.position.x) {
                    if self.spaceship.life > asteroid.size {
                        self.spaceship.life -= asteroid.size;
                    } else {
                        self.spaceship.life = 0;
                        self.state = State::Died;
                    }
                }
                k = k + 1;
            }
            proof {
                assert(lane.take(lane.len() as int) =~= lane);
                assert(field.take(r + 1).drop_last() =~= field.take(r as int));
            }
            r = r + 1;
        }
        assert(field.take(field.len() as int) =~= field);
    }

    /// Lets the spaceship have its turn to fire at time `now`.
    pub fn shot(&mut self, now: u128)
        ensures
            final(self)@ == old(self)@.fired(now),
            old(self)@.wf() ==> final(self)@.wf(),
    {
        if self.spaceship.shooting && now >= self.shooting_info.last_shot_time.saturating_add(
            self.shooting_info.delay_to_next_shot,
        ) {
            let data = Missile::get_types_data(self.spaceship.missile_type);
            let missile = Missile {
                active: true,
                velocity: data.initial_velocity,
                position: Position {
                    x: saturate(self.spaceship.position.x as i128 + (SPACESHIP_WIDTH / 2) as i128),
                    y: saturate(self.spaceship.position.y as i128 + (SPACESHIP_HEIGHT / 2) as i128),
                },
                missile_type: self.spaceship.missile_type,
                direction: data.direction,
                acceleration: data.acceleration,
            };
            Missile::place(&mut self.missiles, missile);
            self.shooting_info.last_shot_time = now;
            self.shooting_info.delay_to_next_shot = data.delay;
        }
    }

    /// Lets every missile of the pool have its turn to strike an asteroid
    /// of its own lane.
    pub fn check_missile_collision(&mut self)
        ensures
            final(self)@ == old(self)@.collided(),
            old(self)@.wf() ==> final(self)@.wf(),
    {
        proof {
            old(self)@.lemma_collided_upto(old(self)@.missiles, old(self)@.missiles.len());
        }
        let cloned_missiles = self.missiles.clone();
        let ghost snapshot = old(self)@.missiles;
        assert(cloned_missiles@ =~= snapshot);
        let mut missile_i: usize = 0;
        while missile_i < cloned_missiles.len()
            invariant
                missile_i <= cloned_missiles.len(),
                cloned_missiles@ == snapshot,
                snapshot == old(self)@.missiles,
                self@ == old(self)@.collided_upto(snapshot, missile_i as nat),
            decreases cloned_missiles.len() - missile_i,
        {
            proof {
                old(self)@.lemma_collided_upto(snapshot, missile_i as nat);
            }
            let mut missile = cloned_missiles[missile_i];
            if missile.active {
                let missiles_row = Game::get_row_by_y_position(missile.position.y);
                if missiles_row < self.asteroids.len() {
                    let asteroid_i = missile.find_hit(&self.asteroids[missiles_row]);
                    if asteroid_i < self.asteroids[missiles_row].len() {
                        let ghost before = self@;
                        let mut asteroid = self.asteroids[missiles_row][asteroid_i];
                        Missile::handle_collision(self, &mut missile, &mut asteroid);
                        proof {
                            lemma_with_fragments(before.missiles, cloned_missiles[missile_i as int].position, 1);
                            assert(self@.asteroids == before.asteroids);
                            assert(self@.asteroids[missiles_row as int] == self.asteroids[missiles_row as int]@);
                        }
                        self.asteroids[missiles_row][asteroid_i] = asteroid;
                        self.missiles[missile_i] = missile;
                        assert(self@.asteroids =~~= before.asteroids.update(
                            missiles_row as int,
                            before.asteroids[missiles_row as int].update(
                                asteroid_i as int,
                                before.asteroids[missiles_row as int][asteroid_i as int].hit(),
                            ),
                        ));
                    }
                }
            }
            missile_i = missile_i + 1;
        }
    }

    /// Adds to the field one new asteroid for each that is about to pass
    /// the generation line, unless debugging has switched generation off.
    pub fn asteroids_generation(&mut self)
        requires
            old(self)@.wf(),
        ensures
            exists|extra: Seq<Asteroid>|
                old(self)@.spawning(extra) && final(self)@ == old(self)@.spawned(extra),
            final(self)@.wf(),
    {
        if self.debugging {
            if !self.debug_options.asteroid_generation {
                assert(old(self)@.spawning(Seq::<Asteroid>::empty()) && self@ == old(self)@.spawned(
                    Seq::<Asteroid>::empty(),
                ));
                return;
            }
        }
        let appearing_asteroids = Asteroid::appearing_asteroids(&self.asteroids);
        let mut rng = thread_generator();
        let ghost mut extra = Seq::<Asteroid>::empty();
        let mut count: i32 = 0;
        while count < appearing_asteroids
            invariant
                0 <= count <= appearing_asteroids,
                appearing_asteroids == old(self)@.wanted(),
                extra.len() == count,
                forall|i: int|
                    0 <= i < extra.len() ==> (#[trigger] extra[i]).fresh() && extra[i].row
                        < ASTEROIDS_ROWS,
                self.asteroids.len() == ASTEROIDS_ROWS,
                self@ == old(self)@.spawned(extra),
            decreases appearing_asteroids - count,
        {
            let generated_asteroid = Asteroid::new(&mut rng, Some(&self.asteroids), None);
            let ghost before = self@.asteroids;
            self.asteroids[generated_asteroid.row].push(generated_asteroid);
            proof {
                let added = extra.push(generated_asteroid);
                assert(added.drop_last() =~= extra);
                assert(self@.asteroids =~~= before.update(
                    generated_asteroid.row as int,
                    before[generated_asteroid.row as int].push(generated_asteroid),
                ));
                extra = added;
            }
            count = count + 1;
        }
        assert(old(self)@.spawning(extra) && self@ == old(self)@.spawned(extra));
        proof {
            GameView::lemma_with_spawned(old(self)@.asteroids, extra);
        }
    }

    /// One frame at time `now`: the field is looked at and generated anew
    /// where that is due, the asteroids crash into the spaceship, the pool
    /// is reordered, the spaceship fires, the missiles strike and move, new
    /// asteroids are added, and the asteroids move and are dropped where they
    /// are out of use.
    pub fn update_at(&mut self, now: u128)
        requires
            old(self)@.wf(),
        ensures
            final(self)@.wf(),
            exists|field: Seq<Seq<Asteroid>>, extra: Seq<Asteroid>|
                old(self)@.generates(now, field, extra) && final(self)@ == old(self)@.updated(
                    now,
                    field,
                    extra,
                ),
    {
        self.check_next_generation(now);
        self.next_generation(now);
        let ghost field = self@.asteroids;
        self.check_spaceship_crash();
        Missile::sort_for_reuse(&mut self.missiles);
        self.shot(now);
        self.check_missile_collision();
        Missile::update_missiles_position(&mut self.missiles);
        assert(self@ == old(self)@.before_spawn(now, field));
        proof {
            let fired = old(self)@.empty_field_noticed(now).regenerated(
                now,
                field,
            ).crashed().pool_sorted().fired(now);
            fired.lemma_collided_upto(fired.missiles, fired.missiles.len());
        }
        self.asteroids_generation();
        let ghost extra = choose|extra: Seq<Asteroid>|
            old(self)@.before_spawn(now, field).spawning(extra) && self@ == old(self)@.before_spawn(
                now,
                field,
            ).spawned(extra);
        Asteroid::update_asteroids_positions(&mut self.asteroids);
        Asteroid::unload_unused_asteroids(&mut self.asteroids);
        proof {
            assert(old(self)@.generates(now, field, extra));
            assert(self@ == old(self)@.updated(now, field, extra));
            old(self)@.lemma_updated_wf(now, field, extra);
        }
    }

    /// One frame at the current time.
    pub fn update(&mut self)
        requires
            old(self)@.wf(),
        ensures
            final(self)@.wf(),
            exists|now: u128, field: Seq<Seq<Asteroid>>, extra: Seq<Asteroid>|
                old(self)@.generates(now, field, extra) && final(self)@ == old(self)@.updated(
                    now,
                    field,
                    extra,
                ),
    {
        let now = time::now();
        self.update_at(now);
    }

    /// A copy of the game.
    pub fn snapshot(&self) -> (copy: Game)
        ensures
            copy@ == self@,
    {
        let mut asteroids: AsteroidRows = Vec::new();
        let mut r: usize = 0;
        while r < self.asteroids.len()
            invariant
                r <= self.asteroids.len(),
                asteroids.len() == r,
                forall|i: int| 0 <= i < r ==> (#[trigger] asteroids[i])@ == self.asteroids[i]@,
            decreases self.asteroids.len() - r,
        {
            asteroids.push(self.asteroids[r].clone());
            r = r + 1;
        }
        let missiles = self.missiles.clone();
        assert(lanes(asteroids) =~~= lanes(self.asteroids));
        assert(missiles@ =~= self.missiles@);
        Game {
            spaceship: self.spaceship,
            asteroids,
            missiles,
            shooting_info: self.shooting_info,
            state: self.state,
            debug_options: self.debug_options,
            debugging: self.debugging,
        }
    }

    /// One step of the game at time `now`, and what to show of it. A game
    /// that is over or closed does nothing, and has nothing to show. Any
    /// other reads `messages`, lets a frame pass unless it is paused, closed
    /// or over by then, and shows a copy of itself.
    pub fn step_at(&mut self, messages: &Vec<U2GMessage>, now: u128) -> (shown: Option<G2UMessage>)
        requires
            old(self)@.wf(),
        ensures
            final(self)@.wf(),
            exists|field: Seq<Seq<Asteroid>>, extra: Seq<Asteroid>|
                old(self)@.steps(messages@, now, field, extra) && final(self)@ == old(self)@.stepped(
                    messages@,
                    now,
                    field,
                    extra,
                ),
            match shown {
                Some(G2UMessage::StateUpdate(game)) => old(self)@.active() && game@ == final(self)@,
                None => !old(self)@.active(),
            },
    {
        let ghost none = Seq::<Seq<Asteroid>>::empty();
        let ghost nothing = Seq::<Asteroid>::empty();
        if !self.is_active() {
            assert(old(self)@.steps(messages@, now, none, nothing) && self@ == old(self)@.stepped(
                messages@,
                now,
                none,
                nothing,
            ));
            return None;
        }
        self.get_inputs(messages);
        let ghost read = self@;
        proof {
            old(self)@.lemma_after_messages(messages@);
        }
        match self.state {
            State::Running | State::NextGen(_) => {
                self.update_at(now);
                proof {
                    let (field, extra) = choose|field: Seq<Seq<Asteroid>>, extra: Seq<Asteroid>|
                        read.generates(now, field, extra) && self@ == read.updated(now, field, extra);
                    assert(old(self)@.steps(messages@, now, field, extra) && self@ == old(
                        self,
                    )@.stepped(messages@, now, field, extra));
                }
            },
            _ => {
                assert(old(self)@.steps(messages@, now, none, nothing) && self@ == old(
                    self,
                )@.stepped(messages@, now, none, nothing));
            },
        }
        Some(G2UMessage::StateUpdate(self.snapshot()))
    }

    /// One step of the game at the current time, and what to show of it.
    pub fn step(&mut self, messages: &Vec<U2GMessage>) -> (shown: Option<G2UMessage>)
        requires
            old(self)@.wf(),
        ensures
            final(self)@.wf(),
            exists|now: u128, field: Seq<Seq<Asteroid>>, extra: Seq<Asteroid>|
                old(self)@.steps(messages@, now, field, extra) && final(self)@ == old(self)@.stepped(
                    messages@,
                    now,
                    field,
                    extra,
                ),
            match shown {
                Some(G2UMessage::StateUpdate(game)) => old(self)@.active() && game@ == final(self)@,
                None => !old(self)@.active(),
            },
    {
        let now = time::now();
        self.step_at(messages, now)
    }

    /// Reads `message`.
    pub fn handle_message(&mut self, message: U2GMessage)
        ensures
            final(self)@ == old(self)@.after_message(message),
            old(self)@.wf() ==> final(self)@.wf(),
    {
        match message {
            U2GMessage::MouseMotion(mouse_position) => {
                self.spaceship.position.y = saturate(
                    mouse_position.y as i128 - (SPACESHIP_HEIGHT / 2) as i128,
                );
            },
            U2GMessage::Event(event) => {
                match event {
                    Event::MouseButtonDown(MouseButton::Left) => {
                        self.spaceship.missile_type = MissileType::Normal;
                        self.spaceship.shooting = true;
                    },
                    Event::MouseButtonUp(MouseButton::Left) => {
                        self.spaceship.missile_type = MissileType::Normal;
                        self.spaceship.shooting = false;
                    },
                    Event::MouseButtonDown(MouseButton::Right) => {
                        self.spaceship.missile_type = MissileType::Bomb;
                        self.spaceship.shooting = true;
                    },
                    Event::MouseButtonUp(MouseButton::Right) => {
                        self.spaceship.missile_type = MissileType::Bomb;
                        self.spaceship.shooting = false;
                    },
                    Event::KeyDown(Keycode::Escape) => {
                        match self.state {
                            State::Running => self.state = State::Paused,
                            State::Paused => self.state = State::Running,
                            _ => {},
                        }
                    },
                    Event::KeyDown(Keycode::F5) => {
                        self.debugging = !self.debugging;
                    },
                    Event::KeyDown(Keycode::F6) => {
                        self.debug_options.generation_line = !self.debug_options.generation_line;
                    },
                    Event::KeyDown(Keycode::F7) => {
                        self.debug_options.rows = !self.debug_options.rows;
                    },
                    Event::KeyDown(Keycode::F8) => {
                        self.debug_options.game_state = !self.debug_options.game_state;
                    },
                    Event::KeyDown(Keycode::F9) => {
                        self.debug_options.invincible = !self.debug_options.invincible;
                    },
                    Event::KeyDown(Keycode::F10) => {
                        self.debug_options.asteroid_generation =
                        !self.debug_options.asteroid_generation;
                    },
                    Event::Quit => {
                        self.state = State::Closed;
                    },
                    _ => {},
                }
            },
            U2GMessage::Close => {
                self.state = State::Closed;
            },
        }
    }

    /// Reads `messages`, one after the other.
    pub fn get_inputs(&mut self, messages: &Vec<U2GMessage>)
        ensures
            final(self)@ == old(self)@.after_messages(messages@),
            old(self)@.wf() ==> final(self)@.wf(),
    {
        proof {
            old(self)@.lemma_after_messages(messages@);
        }
        let mut i: usize = 0;
        while i < messages.len()
            invariant
                i <= messages.len(),
                self@ == old(self)@.after_messages(messages@.take(i as int)),
            decreases messages.len() - i,
        {
            proof {
                assert(messages@.take(i + 1).drop_last() =~= messages@.take(i as int));
            }
            self.handle_message(messages[i]);
            i = i + 1;
        }
        assert(messages@.take(messages.len() as int) =~= messages@);
    }

    /// The height at which the middle of lane `row` lies, as far as the
    /// result can hold it.
    pub fn get_centered_row_y_position(row: usize) -> (y_position: u32)
        ensures
            y_position == if lane_center(row as int) <= u32::MAX {
                lane_center(row as int)
            } else {
                u32::MAX as int
            },
    {
        let center: u128 = ASTEROIDS_ROWS_HEIGHT as u128 * row as u128 + ASTEROIDS_ROWS_HEIGHT as u128
            / 2;
        if center <= u32::MAX as u128 {
            center as u32
        } else {
            u32::MAX
        }
    }

    /// The lane in which the height `y_position` lies. A height above the
    /// first lane by the height of a lane or more lies in no lane: the
    /// result is then `usize::MAX`.
    pub fn get_row_by_y_position(y_position: i32) -> (row: usize)
        ensures
            lane_of(y_position as int) >= 0 ==> row == lane_of(y_position as int),
            lane_of(y_position as int) < 0 ==> row == usize::MAX,
    {
        let lane: i64 = y_position as i64 / ASTEROIDS_ROWS_HEIGHT as i64;
        if lane >= 0 {
            lane as usize
        } else {
            usize::MAX
        }
    }
}

} // verus!
