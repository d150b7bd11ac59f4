//! Asteroids and the field they drift through.

use vstd::prelude::*;
use rand::rngs::ThreadRng;
use crate::game::{lane_center, AsteroidRow, AsteroidRows, Game};
use crate::physics::{
    clamped,
    lemma_coordinate_falls,
    lemma_coordinate_rests,
    next_position,
    position_after,
    resultant,
    saturate,
    ChangingFactor,
    Force,
    Position,
    BACK,
    FACTOR_UNIT,
};
use crate::random::{draw, thread_generator};
use crate::rectangle::{Rectangle, Size};
use crate::settings::{
    asteroids_margin,
    to_pixels,
    ALLOW_INSIDE_GENERATION,
    ASTEROIDS_MARGIN_X,
    ASTEROIDS_ROWS,
    GENERATE_NEW_ASTEROID_AFTER,
    MAX_ASTEROIDS_SIZE,
    MAX_ASTEROIDS_SPEED,
    MAX_GENERATION_ATTEMPTS,
    MIN_ASTEROIDS_SIZE,
    MIN_ASTEROIDS_SPEED,
    PIXELS_MULTIPLIER_FACTOR,
    WINDOW_WIDTH,
};

verus! {

/// An asteroid. Its `size` is also the number of hits it takes and the
/// damage it does.
#[derive(Clone, Copy, Debug, PartialEq, Eq, Structural)]
pub struct Asteroid {
    pub position: Position,
    pub row: usize,
    pub size: u8,
    pub velocity: ChangingFactor,
    pub direction: ChangingFactor,
    pub acceleration: ChangingFactor,
}

/// The acceleration along the x axis that every asteroid is made with.
pub const DRIFT_ACCELERATION: i32 = 4;

/// Whether `value` is one of `low..high`, a range that holds no number
/// counting as the range of `low` alone.
pub open spec fn in_range(value: int, low: int, high: int) -> bool {
    if low < high {
        low <= value < high
    } else {
        value == low
    }
}

/// Whether `field` is as a field of `rows` lanes is made: every lane holds
/// one of `min..max` asteroids, or one where that range holds no number, and
/// each of them is new and lies in its lane.
pub open spec fn fresh_field(field: Seq<Seq<Asteroid>>, rows: int, min: int, max: int) -> bool {
    &&& field.len() == rows
    &&& forall|r: int|
        0 <= r < field.len() ==> if min < max {
            min <= (#[trigger] field[r]).len() < max
        } else {
            field[r].len() == 1
        }
    &&& forall|r: int, k: int|
        0 <= r < field.len() && 0 <= k < field[r].len() ==> (#[trigger] field[r][k]).fresh()
            && field[r][k].row == r
}

/// Whether every asteroid of `field` lies in the lane that holds it.
pub open spec fn in_lanes(field: Seq<Seq<Asteroid>>) -> bool {
    forall|r: int, k: int|
        0 <= r < field.len() && 0 <= k < field[r].len() ==> (#[trigger] field[r][k]).row == r
}

/// Whether `field` holds no asteroid.
pub open spec fn is_empty_field(field: Seq<Seq<Asteroid>>) -> bool {
    forall|r: int| 0 <= r < field.len() ==> (#[trigger] field[r]).len() == 0
}

/// The lanes of a field as sequences.
pub open spec fn lanes(asteroids: AsteroidRows) -> Seq<Seq<Asteroid>> {
    asteroids@.map_values(|row: AsteroidRow| row@)
}

/// A lane after every asteroid of it has moved one step.
pub open spec fn advanced_lane(lane: Seq<Asteroid>) -> Seq<Asteroid> {
    lane.map_values(|asteroid: Asteroid| asteroid.advanced())
}

/// A field after every asteroid of it has moved one step.
pub open spec fn advanced_field(field: Seq<Seq<Asteroid>>) -> Seq<Seq<Asteroid>> {
    field.map_values(|lane: Seq<Asteroid>| advanced_lane(lane))
}

/// The asteroids of a lane that are still in use, in their order.
pub open spec fn used_of(lane: Seq<Asteroid>) -> Seq<Asteroid> {
    lane.filter(|asteroid: Asteroid| asteroid.used())
}

/// A field without the asteroids that are no longer in use.
pub open spec fn pruned_field(field: Seq<Seq<Asteroid>>) -> Seq<Seq<Asteroid>> {
    field.map_values(|lane: Seq<Asteroid>| used_of(lane))
}

/// The asteroids of a lane that are about to pass the generation line.
pub open spec fn appearing_of(lane: Seq<Asteroid>) -> Seq<Asteroid> {
    lane.filter(|asteroid: Asteroid| asteroid.appearing())
}

/// How many asteroids of a field are about to pass the generation line.
pub open spec fn appearing_in(field: Seq<Seq<Asteroid>>) -> nat
    decreases field.len(),
{
    if field.len() == 0 {
        0
    } else {
        appearing_in(field.drop_last()) + appearing_of(field.last()).len()
    }
}

/// `count` as far as an `i32` can hold it.
pub open spec fn capped(count: nat) -> int {
    if count <= i32::MAX {
        count as int
    } else {
        i32::MAX as int
    }
}

impl Asteroid {
    /// The square that the asteroid covers on screen.
    pub open spec fn shape(self) -> Rectangle {
        Rectangle {
            position: self.position,
            size: Size::Square((self.size * PIXELS_MULTIPLIER_FACTOR) as u32),
        }
    }

    /// The square by which the asteroid's motion is computed: its edge is
    /// the size itself.
    pub open spec fn body(self) -> Rectangle {
        Rectangle { position: self.position, size: Size::Square(self.size as u32) }
    }

    /// The one force that moves the asteroid.
    pub open spec fn forces(self) -> Seq<Force> {
        seq![Force { direction: self.direction, acceleration: self.acceleration }]
    }

    /// The asteroid one step later.
    pub open spec fn advanced(self) -> Asteroid {
        Asteroid { position: position_after(self.body(), self.velocity, self.forces()), ..self }
    }

    /// Where the asteroid is about to be, as seen from the spaceship: its
    /// next position, computed by its square on screen.
    pub open spec fn approach(self) -> Position {
        position_after(self.shape(), self.velocity, self.forces())
    }

    /// Whether the asteroid passes the upright line at `x` with its next
    /// step: it lies right of the line and is about to lie left of it.
    pub open spec fn crossing(self, x: int) -> bool {
        self.approach().x < x < self.position.x
    }

    /// The asteroid after a missile struck it: one smaller, as long as there
    /// is anything left of it.
    pub open spec fn hit(self) -> Asteroid {
        Asteroid { size: if self.size > 0 { (self.size - 1) as u8 } else { 0 }, ..self }
    }

    /// The strength with which the asteroid moves along its direction on
    /// the x axis: its velocity, weighed by its size, and its acceleration.
    pub open spec fn pull(self) -> int {
        self.velocity.x * self.size + self.acceleration.x
    }

    /// An asteroid right of the window's left edge that is directed to the
    /// left and moves along its direction lies further left after every
    /// step. An asteroid without a size does so where its acceleration is not
    /// negative.
    pub proof fn lemma_advance_goes_left(self)
        requires
            self.position.x > 0,
            self.direction.x < 0,
            self.size > 0 ==> self.pull() > 0,
            self.size == 0 ==> self.acceleration.x >= 0,
        ensures
            self.advanced().position.x < self.position.x,
    {
        let forces = self.forces();
        assert(forces.drop_last() =~= Seq::<Force>::empty());
        assert(resultant(forces).direction_x == self.direction.x) by {
            reveal_with_fuel(resultant, 2);
        }
        assert(resultant(forces).acceleration_x == self.acceleration.x) by {
            reveal_with_fuel(resultant, 2);
        }
        lemma_coordinate_falls(
            self.position.x as int,
            self.velocity.x as int,
            self.direction.x as int,
            self.acceleration.x as int,
            self.size as int,
        );
    }

    /// Whether the asteroid drifts to the left: it is directed to the left,
    /// its velocity is not directed against that, and it accelerates.
    pub open spec fn drifting(self) -> bool {
        self.direction.x < 0 && self.velocity.x >= 0 && self.acceleration.x > 0
    }

    /// Every new asteroid drifts to the left, and an asteroid that does so
    /// goes on doing so: neither a step nor a hit changes that. While it lies
    /// right of the window's left edge, every step takes it further left.
    pub proof fn lemma_drifting_goes_left(self)
        ensures
            self.fresh() ==> self.drifting() && self.position.x > 0,
            self.drifting() ==> self.advanced().drifting() && self.hit().drifting(),
            self.drifting() && self.position.x > 0 ==> self.advanced().position.x < self.position.x,
    {
        if self.drifting() && self.position.x > 0 {
            assert(self.size > 0 ==> self.pull() > 0) by (nonlinear_arith)
                requires
                    self.velocity.x >= 0,
                    self.acceleration.x > 0,
                    self.pull() == self.velocity.x * self.size + self.acceleration.x,
            ;
            self.lemma_advance_goes_left();
        }
    }

    /// An asteroid with a size that is directed along the x axis alone
    /// stays at its height.
    pub proof fn lemma_advance_keeps_height(self)
        requires
            self.size > 0,
            self.direction.y == 0,
        ensures
            self.advanced().position.y == self.position.y,
            self.advanced().row == self.row,
    {
        let forces = self.forces();
        assert(forces.drop_last() =~= Seq::<Force>::empty());
        assert(resultant(forces).direction_y == self.direction.y) by {
            reveal_with_fuel(resultant, 2);
        }
        lemma_coordinate_rests(
            self.position.y as int,
            self.velocity.y as int,
            resultant(forces).acceleration_y,
            self.size as int,
        );
    }

    /// Whether the asteroid counts: it has not left the screen on the left
    /// and has not been shot to nothing.
    pub open spec fn used(self) -> bool {
        self.position.x > 0 && self.size > 0
    }

    /// The asteroid of lane `row` and of size `size` that lies `margin`
    /// pixels right of the nearest place at which an asteroid of its size is
    /// out of sight, and sets out leftwards at `speed` pixels a step.
    pub open spec fn spawned(row: usize, size: u8, margin: int, speed: int) -> Asteroid {
        Asteroid {
            position: Position {
                x: clamped(WINDOW_WIDTH + size * PIXELS_MULTIPLIER_FACTOR + margin) as i32,
                y: clamped(lane_center(row as int)) as i32,
            },
            row,
            size,
            velocity: ChangingFactor { x: clamped(speed * FACTOR_UNIT) as i32, y: 0 },
            direction: ChangingFactor { x: BACK, y: 0 },
            acceleration: ChangingFactor { x: DRIFT_ACCELERATION, y: 0 },
        }
    }

    /// Whether the asteroid is as a new one is made: of a size, at a margin
    /// and with a speed of the configured ranges.
    pub open spec fn fresh(self) -> bool {
        exists|margin: int, speed: int|
            {
                &&& in_range(self.size as int, MIN_ASTEROIDS_SIZE as int, MAX_ASTEROIDS_SIZE as int)
                &&& in_range(margin, 0, ASTEROIDS_MARGIN_X as int)
                &&& in_range(speed, MIN_ASTEROIDS_SPEED as int, MAX_ASTEROIDS_SPEED as int)
                &&& self == #[trigger] Asteroid::spawned(self.row, self.size, margin, speed)
            }
    }

    /// Whether a corner of the asteroid lies inside an asteroid of `field`.
    pub open spec fn inside(self, field: Seq<Seq<Asteroid>>) -> bool {
        exists|r: int, k: int|
            0 <= r < field.len() && 0 <= k < field[r].len() && self.shape().overlaps(
                (#[trigger] field[r][k]).shape(),
            )
    }

    /// Whether the asteroid passes the generation line with its next step:
    /// its left edge lies between the line and the window's right edge, and
    /// lies on the line or left of it one step later.
    pub open spec fn appearing(self) -> bool {
        let line = WINDOW_WIDTH - GENERATE_NEW_ASTEROID_AFTER;
        let edge = self.shape().corners().top_left.x;
        let next_edge = self.advanced().shape().corners().top_left.x;
        line < edge < WINDOW_WIDTH && next_edge <= line
    }

    /// The asteroid that `Asteroid::spawned` describes.
    pub fn spawn(row: usize, size: u8, margin: i32, speed: u32) -> (asteroid: Asteroid)
        ensures
            asteroid == Asteroid::spawned(row, size, margin as int, speed as int),
    {
        let nearest: i128 = WINDOW_WIDTH as i128 + to_pixels(size as u32) as i128;
        Asteroid {
            position: Position {
                x: saturate(nearest + margin as i128),
                y: saturate(Game::get_centered_row_y_position(row) as i128),
            },
            row,
            size,
            velocity: ChangingFactor { x: saturate(speed as i128 * FACTOR_UNIT as i128), y: 0 },
            direction: ChangingFactor { x: BACK, y: 0 },
            acceleration: ChangingFactor { x: DRIFT_ACCELERATION, y: 0 },
        }
    }

    /// Whether a corner of the asteroid lies inside an asteroid of
    /// `existing_asteroids`.
    pub fn is_inside(&self, existing_asteroids: &AsteroidRows) -> (inside: bool)
        ensures
            inside == self.inside(lanes(*existing_asteroids)),
    {
        let inside_rectangle = self.get_shape();
        let ghost field = lanes(*existing_asteroids);
        let mut r: usize = 0;
        while r < existing_asteroids.len()
            invariant
                r <= existing_asteroids.len(),
                field == lanes(*existing_asteroids),
                inside_rectangle == self.shape(),
                forall|i: int, k: int|
                    0 <= i < r && 0 <= k < field[i].len() ==> !inside_rectangle.overlaps(
                        (#[trigger] field[i][k]).shape(),
                    ),
            decreases existing_asteroids.len() - r,
        {
            let row = &existing_asteroids[r];
            let mut k: usize = 0;
            while k < row.len()
                invariant
                    k <= row.len(),
                    r < existing_asteroids.len(),
                    field == lanes(*existing_asteroids),
                    row@ == field[r as int],
                    inside_rectangle == self.shape(),
                    forall|j: int|
                        0 <= j < k ==> !inside_rectangle.overlaps((#[trigger] field[r as int][j]).shape()),
                decreases row.len() - k,
            {
                let outside_rectangle = row[k].get_shape();
                if inside_rectangle.over(outside_rectangle) {
                    assert(self.shape().overlaps(field[r as int][k as int].shape()));
                    return true;
                }
                k = k + 1;
            }
            r = r + 1;
        }
        false
    }

    /// A new asteroid in lane `row`, or in a lane drawn from all lanes where
    /// none is given, and whether the asteroid was placed clear of
    /// `existing_asteroids`. Placements are drawn until one lies clear of
    /// every existing asteroid; after `MAX_GENERATION_ATTEMPTS` of them the
    /// last is taken as it is. Where overlaps are allowed, the first
    /// placement is taken unseen.
    pub fn generate(
        rng: &mut ThreadRng,
        existing_asteroids: Option<&AsteroidRows>,
        row: Option<usize>,
    ) -> (generated: (Asteroid, bool))
        ensures
            generated.0.fresh(),
            row matches Some(set_row) ==> generated.0.row == set_row,
            row is None ==> generated.0.row < ASTEROIDS_ROWS,
            generated.1 == match existing_asteroids {
                Some(existing) => !ALLOW_INSIDE_GENERATION && !generated.0.inside(lanes(*existing)),
                None => true,
            },
    {
        let lane = match row {
            Some(set_row) => set_row,
            None => draw(rng, 0, ASTEROIDS_ROWS as i64) as usize,
        };
        let speed = draw(rng, MIN_ASTEROIDS_SPEED as i64, MAX_ASTEROIDS_SPEED as i64) as u32;
        let mut attempts: u32 = 0;
        loop
            invariant
                attempts < MAX_GENERATION_ATTEMPTS,
                in_range(speed as int, MIN_ASTEROIDS_SPEED as int, MAX_ASTEROIDS_SPEED as int),
                row matches Some(set_row) ==> lane == set_row,
                row is None ==> lane < ASTEROIDS_ROWS,
            decreases MAX_GENERATION_ATTEMPTS - attempts,
        {
            let size = draw(rng, MIN_ASTEROIDS_SIZE as i64, MAX_ASTEROIDS_SIZE as i64) as u8;
            let margin = draw(rng, 0, asteroids_margin().x as i64) as i32;
            let asteroid = Asteroid::spawn(lane, size, margin, speed);
            assert(asteroid == Asteroid::spawned(asteroid.row, asteroid.size, margin as int, speed as int));
            attempts = attempts + 1;
            match existing_asteroids {
                None => {
                    return (asteroid, true);
                },
                Some(existing) => {
                    if !ALLOW_INSIDE_GENERATION && !asteroid.is_inside(existing) {
                        return (asteroid, true);
                    }
                    if ALLOW_INSIDE_GENERATION || attempts >= MAX_GENERATION_ATTEMPTS {
                        return (asteroid, false);
                    }
                },
            }
        }
    }

    /// A new asteroid in lane `row`, or in a lane drawn from all lanes where
    /// none is given. It is placed as `Asteroid::generate` places it.
    pub fn new(
        rng: &mut ThreadRng,
        existing_asteroids: Option<&AsteroidRows>,
        row: Option<usize>,
    ) -> (asteroid: Asteroid)
        ensures
            asteroid.fresh(),
            row matches Some(set_row) ==> asteroid.row == set_row,
            row is None ==> asteroid.row < ASTEROIDS_ROWS,
    {
        Asteroid::generate(rng, existing_asteroids, row).0
    }

    /// A field of `rows` lanes, each with one of
    /// `min_asteroids_per_row..max_asteroids_per_row` new asteroids, or with
    /// one where that range holds no number.
    pub fn initialize_asteroids(rows: usize, min_asteroids_per_row: u8, max_asteroids_per_row: u8) -> (asteroids:
        AsteroidRows)
        ensures
            fresh_field(
                lanes(asteroids),
                rows as int,
                min_asteroids_per_row as int,
                max_asteroids_per_row as int,
            ),
    {
        let mut asteroids: AsteroidRows = Vec::new();
        let mut rng = thread_generator();
        let mut row_i: usize = 0;
        while row_i < rows
            invariant
                row_i <= rows,
                fresh_field(
                    lanes(asteroids),
                    row_i as int,
                    min_asteroids_per_row as int,
                    max_asteroids_per_row as int,
                ),
            decreases rows - row_i,
        {
            let range = if min_asteroids_per_row >= max_asteroids_per_row {
                1
            } else {
                draw(&mut rng, min_asteroids_per_row as i64, max_asteroids_per_row as i64) as u8
            };
            let mut row: AsteroidRow = Vec::new();
            let mut count: u8 = 0;
            while count < range
                invariant
                    count <= range,
                    row.len() == count,
                    forall|k: int| 0 <= k < row.len() ==> (#[trigger] row[k]).fresh() && row[k].row == row_i,
                decreases range - count,
            {
                let generated_asteroid = Asteroid::new(&mut rng, None, Some(row_i));
                row.push(generated_asteroid);
                count = count + 1;
            }
            let ghost before = lanes(asteroids);
            asteroids.push(row);
            proof {
                let field = lanes(asteroids);
                assert(field =~= before.push(row@));
                assert forall|r: int, k: int| 0 <= r < field.len() && 0 <= k < field[r].len() implies (
                #[trigger] field[r][k]).fresh() && field[r][k].row == r by {
                    if r < before.len() {
                        assert(field[r] == before[r]);
                        assert(before[r][k].fresh());
                    }
                }
            }
            row_i = row_i + 1;
        }
        asteroids
    }

    /// Whether the asteroid passes the upright line at `x` with its next
    /// step.
    pub fn is_crossing(&self, x: i32) -> (crossing: bool)
        ensures
            crossing == self.crossing(x as int),
    {
        let forces = vec![Force { direction: self.direction, acceleration: self.acceleration }];
        assert(forces@ =~= self.forces());
        let next_pos = next_position(self.get_shape(), self.velocity, forces);
        next_pos.x < x && self.position.x > x
    }

    /// The square that the asteroid covers on screen.
    pub fn get_shape(&self) -> (shape: Rectangle)
        ensures
            shape == self.shape(),
    {
        Rectangle { position: self.position, size: Size::Square(to_pixels(self.size as u32)) }
    }

    /// Moves the asteroid one step.
    pub fn update_asteroid_position(&mut self)
        ensures
            *final(self) == old(self).advanced(),
    {
        let forces = vec![Force { direction: self.direction, acceleration: self.acceleration }];
        assert(forces@ =~= self.forces());
        self.position = next_position(
            Rectangle { position: self.position, size: Size::Square(self.size as u32) },
            self.velocity,
            forces,
        );
    }

    /// Whether the asteroid counts.
    pub fn is_used(&self) -> (used: bool)
        ensures
            used == self.used(),
    {
        self.position.x > 0 && self.size > 0
    }

    /// Moves every asteroid of the field one step. The lanes stay as many,
    /// and every asteroid stays in its lane.
    pub fn update_asteroids_positions(asteroids: &mut AsteroidRows)
        ensures
            lanes(*final(asteroids)) == advanced_field(lanes(*old(asteroids))),
            final(asteroids).len() == old(asteroids).len(),
            in_lanes(lanes(*old(asteroids))) ==> in_lanes(lanes(*final(asteroids))),
    {
        let mut rows: AsteroidRows = Vec::new();
        std::mem::swap(asteroids, &mut rows);
        *asteroids = Asteroid::map_asteroids(rows, advance_row);
        assert(lanes(*asteroids) =~~= advanced_field(lanes(*old(asteroids))));
        proof {
            lemma_advanced_and_pruned(lanes(*old(asteroids)));
        }
    }

    /// Drops from the field every asteroid that is no longer in use. The
    /// lanes stay as many, and every asteroid stays in its lane.
    pub fn unload_unused_asteroids(asteroids: &mut AsteroidRows)
        ensures
            lanes(*final(asteroids)) == pruned_field(lanes(*old(asteroids))),
            final(asteroids).len() == old(asteroids).len(),
            in_lanes(lanes(*old(asteroids))) ==> in_lanes(lanes(*final(asteroids))),
    {
        let mut rows: AsteroidRows = Vec::new();
        std::mem::swap(asteroids, &mut rows);
        *asteroids = Asteroid::map_asteroids(rows, used_row);
        assert(lanes(*asteroids) =~~= pruned_field(lanes(*old(asteroids))));
        proof {
            lemma_advanced_and_pruned(lanes(*old(asteroids)));
        }
    }

    /// The field with each lane replaced by what `f` makes of it.
    pub fn map_asteroids(asteroids: AsteroidRows, f: impl Fn(AsteroidRow) -> Vec<Asteroid>) -> (mapped:
        AsteroidRows)
        requires
            forall|i: int| 0 <= i < asteroids.len() ==> call_requires(f, (asteroids[i],)),
        ensures
            mapped.len() == asteroids.len(),
            forall|i: int|
                0 <= i < asteroids.len() ==> call_ensures(f, (asteroids[i],), #[trigger] mapped[i]),
    {
        let ghost before = asteroids@;
        let mut asteroids = asteroids;
        let mut i: usize = 0;
        while i < asteroids.len()
            invariant
                i <= asteroids.len(),
                asteroids.len() == before.len(),
                forall|k: int| 0 <= k < i ==> call_ensures(f, (before[k],), #[trigger] asteroids[k]),
                forall|k: int| i <= k < asteroids.len() ==> asteroids[k] == before[k],
                forall|k: int| 0 <= k < asteroids.len() ==> call_requires(f, (before[k],)),
            decreases asteroids.len() - i,
        {
            let mut row: AsteroidRow = Vec::new();
            std::mem::swap(&mut asteroids[i], &mut row);
            assert(row == before[i as int]);
            asteroids[i] = f(row);
            i = i + 1;
        }
        asteroids
    }

    /// How many asteroids pass the generation line with their next step, up
    /// to the greatest number the result can hold.
    pub fn appearing_asteroids(asteroids: &AsteroidRows) -> (appearing_asteroids: i32)
        ensures
            appearing_asteroids == capped(appearing_in(lanes(*asteroids))),
    {
        let mut appearing_asteroids: i32 = 0;
        let ghost field = lanes(*asteroids);
        let mut r: usize = 0;
        while r < asteroids.len()
            invariant
                r <= asteroids.len(),
                field == lanes(*asteroids),
                appearing_asteroids == capped(appearing_in(field.take(r as int))),
            decreases asteroids.len() - r,
        {
            let row = &asteroids[r];
            let ghost lane = row@;
            let ghost base = appearing_in(field.take(r as int));
            let mut k: usize = 0;
            while k < row.len()
                invariant
                    k <= row.len(),
                    lane == row@,
                    appearing_asteroids == capped(base + appearing_of(lane.take(k as int)).len()),
                decreases row.len() - k,
            {
                let asteroid = row[k];
                proof {
                    reveal(Seq::filter);
                    assert(lane.take(k + 1).drop_last() =~= lane.take(k as int));
                }
                if asteroid.is_appearing() && appearing_asteroids < i32::MAX {
                    appearing_asteroids += 1;
                }
                k = k + 1;
            }
            proof {
                assert(lane.take(row.len() as int) =~= lane);
                assert(field.take(r + 1).drop_last() =~= field.take(r as int));
                assert(field.take(r + 1).last() == lane);
            }
            r = r + 1;
        }
        proof {
            assert(field.take(asteroids.len() as int) =~= field);
        }
        appearing_asteroids
    }

    /// Whether the asteroid passes the generation line with its next step.
    pub fn is_appearing(&self) -> (appearing: bool)
        ensures
            appearing == self.appearing(),
    {
        let line: i64 = WINDOW_WIDTH as i64 - GENERATE_NEW_ASTEROID_AFTER as i64;
        let corners = self.get_shape().get_corners();
        if (corners.top_left.x as i64) < WINDOW_WIDTH as i64 && corners.top_left.x as i64 > line {
            let mut next = *self;
            next.update_asteroid_position();
            let next_corners = next.get_shape().get_corners();
            next_corners.top_left.x as i64 <= line
        } else {
            false
        }
    }
}

/// A step of every asteroid, and the dropping of those out of use,
/// leave the lanes as many and every asteroid in its lane.
pub proof fn lemma_advanced_and_pruned(field: Seq<Seq<Asteroid>>)
    ensures
        advanced_field(field).len() == field.len(),
        pruned_field(field).len() == field.len(),
        in_lanes(field) ==> in_lanes(advanced_field(field)) && in_lanes(pruned_field(field)),
{
    if in_lanes(field) {
        let advanced = advanced_field(field);
        assert forall|r: int, k: int|
            0 <= r < advanced.len() && 0 <= k < advanced[r].len() implies (
        #[trigger] advanced[r][k]).row == r by {
            assert(field[r][k].row == r);
        }
        let pruned = pruned_field(field);
        assert forall|r: int, k: int|
            0 <= r < pruned.len() && 0 <= k < pruned[r].len() implies (#[trigger] pruned[r][k]).row
            == r by {
            let used = |asteroid: Asteroid| asteroid.used();
            field[r].lemma_filter_contains_rev(used, pruned[r][k]);
            let j = choose|j: int| 0 <= j < field[r].len() && field[r][j] == pruned[r][k];
            assert(field[r][j].row == r);
        }
    }
}

/// A lane of which every asteroid is in use is its own pruning.
pub proof fn lemma_used_lane_stays(lane: Seq<Asteroid>)
    requires
        forall|k: int| 0 <= k < lane.len() ==> (#[trigger] lane[k]).used(),
    ensures
        used_of(lane) == lane,
    decreases lane.len(),
{
    reveal(Seq::filter);
    if lane.len() > 0 {
        assert forall|k: int| 0 <= k < lane.drop_last().len() implies (#[trigger] lane.drop_last()[k]).used() by {
            assert(lane.drop_last()[k] == lane[k]);
        }
        lemma_used_lane_stays(lane.drop_last());
        assert(lane.drop_last().push(lane.last()) =~= lane);
    } else {
        assert(used_of(lane) =~= lane);
    }
}

/// Pruning leaves a field as it is where every asteroid of the field is in
/// use: lies right of the window's left edge and has a size.
pub proof fn lemma_pruning_keeps_used_field(field: Seq<Seq<Asteroid>>)
    requires
        forall|r: int, k: int|
            0 <= r < field.len() && 0 <= k < field[r].len() ==> (#[trigger] field[r][k]).used(),
    ensures
        pruned_field(field) == field,
{
    assert forall|r: int| 0 <= r < field.len() implies used_of(#[trigger] field[r]) == field[r] by {
        assert forall|k: int| 0 <= k < field[r].len() implies (#[trigger] field[r][k]).used() by {}
        lemma_used_lane_stays(field[r]);
    }
    assert(pruned_field(field) =~= field);
}

/// Pruning twice is pruning once.
pub proof fn lemma_pruning_is_idempotent(field: Seq<Seq<Asteroid>>)
    ensures
        pruned_field(pruned_field(field)) == pruned_field(field),
{
    let pruned = pruned_field(field);
    assert forall|r: int, k: int| 0 <= r < pruned.len() && 0 <= k < pruned[r].len() implies (
    #[trigger] pruned[r][k]).used() by {
        let used = |asteroid: Asteroid| asteroid.used();
        field[r].lemma_filter_pred(used, k);
    }
    lemma_pruning_keeps_used_field(pruned);
}

/// A lane with every asteroid of it one step on.
pub fn advance_row(row: AsteroidRow) -> (advanced: Vec<Asteroid>)
    ensures
        advanced@ == advanced_lane(row@),
{
    let ghost before = row@;
    let mut row = row;
    let mut i: usize = 0;
    while i < row.len()
        invariant
            i <= row.len(),
            row.len() == before.len(),
            forall|k: int| 0 <= k < i ==> row[k] == before[k].advanced(),
            forall|k: int| i <= k < row.len() ==> row[k] == before[k],
        decreases row.len() - i,
    {
        row[i].update_asteroid_position();
        i = i + 1;
    }
    assert(row@ =~= advanced_lane(before));
    row
}

/// A lane without the asteroids that are no longer in use.
pub fn used_row(row: AsteroidRow) -> (used: Vec<Asteroid>)
    ensures
        used@ == used_of(row@),
{
    let mut used: Vec<Asteroid> = Vec::new();
    let mut i: usize = 0;
    while i < row.len()
        invariant
            i <= row.len(),
            used@ == used_of(row@.take(i as int)),
        decreases row.len() - i,
    {
        proof {
            reveal(Seq::filter);
            assert(row@.take(i + 1).drop_last() =~= row@.take(i as int));
        }
        if row[i].is_used() {
            used.push(row[i]);
        }
        i = i + 1;
    }
    proof {
        reveal(Seq::filter);
        assert(row@.take(row.len() as int) =~= row@);
    }
    used
}

} // verus!
