//! Missiles and the pool that holds them.

use vstd::prelude::*;
use crate::asteroid::Asteroid;
use crate::game::Game;
use crate::physics::{
    next_position,
    position_after,
    ChangingFactor,
    Force,
    Position,
    BACK,
    FORTH,
};
use crate::rectangle::{Rectangle, RectangleSize, Size};
use crate::settings::{MISSILE_HEIGHT, MISSILE_WIDTH, WINDOW_HEIGHT, WINDOW_WIDTH};

pub mod missiles;

verus! {

/// What a type of missile starts with, and the nanoseconds that pass
/// between two shots of it.
#[derive(Clone, Copy, Debug, PartialEq, Eq, Structural)]
pub struct MissileData {
    pub initial_velocity: ChangingFactor,
    pub direction: ChangingFactor,
    pub acceleration: ChangingFactor,
    pub delay: u128,
}

/// The types of missile: the plain shot, and the bomb that bursts into
/// fragments.
#[derive(Clone, Copy, Debug, PartialEq, Eq, Structural)]
pub enum MissileType {
    Normal,
    Bomb,
}

/// A slot of the pool. An inactive slot holds no missile and is free for
/// the next one.
#[derive(Clone, Copy, Debug, PartialEq, Eq, Structural)]
pub struct Missile {
    pub position: Position,
    pub velocity: ChangingFactor,
    pub direction: ChangingFactor,
    pub acceleration: ChangingFactor,
    pub active: bool,
    pub missile_type: MissileType,
}

/// Number of fragments a bomb bursts into.
pub const FRAGMENTS: usize = 6;

/// The direction of fragment `index` of a bomb: up-left, up, up-right,
/// right, down-right, down.
pub open spec fn fragment_direction(index: int) -> ChangingFactor {
    if index == 0 {
        ChangingFactor { x: BACK, y: BACK }
    } else if index == 1 {
        ChangingFactor { x: 0, y: BACK }
    } else if index == 2 {
        ChangingFactor { x: FORTH, y: BACK }
    } else if index == 3 {
        ChangingFactor { x: FORTH, y: 0 }
    } else if index == 4 {
        ChangingFactor { x: FORTH, y: FORTH }
    } else {
        ChangingFactor { x: 0, y: FORTH }
    }
}

/// Fragment `index` of a bomb that burst at `position`: a normal missile at
/// half a normal missile's velocity along both axes, without acceleration.
pub open spec fn fragment(position: Position, index: int) -> Missile {
    Missile {
        position,
        velocity: ChangingFactor {
            x: (MissileType::Normal.data().initial_velocity.x / 2) as i32,
            y: (MissileType::Normal.data().initial_velocity.x / 2) as i32,
        },
        direction: fragment_direction(index),
        acceleration: ChangingFactor { x: 0, y: 0 },
        active: true,
        missile_type: MissileType::Normal,
    }
}

/// The lowest index of an inactive slot of `pool`, or the pool's length
/// where every slot is active.
pub open spec fn free_slot(pool: Seq<Missile>) -> int
    decreases pool.len(),
{
    if pool.len() == 0 || !pool.first().active {
        0
    } else {
        1 + free_slot(pool.drop_first())
    }
}

/// The pool with `missile` in its lowest inactive slot, or at its end where
/// every slot is active.
pub open spec fn placed(pool: Seq<Missile>, missile: Missile) -> Seq<Missile> {
    if free_slot(pool) < pool.len() {
        pool.update(free_slot(pool), missile)
    } else {
        pool.push(missile)
    }
}

/// The pool with the fragments `first`, .., `FRAGMENTS - 1` of a bomb that
/// burst at `position` placed one after the other.
pub open spec fn with_fragments(pool: Seq<Missile>, position: Position, first: int) -> Seq<Missile>
    decreases FRAGMENTS - first,
{
    if first >= FRAGMENTS {
        pool
    } else {
        with_fragments(placed(pool, fragment(position, first)), position, first + 1)
    }
}

/// The pool with every missile of it one step on.
pub open spec fn advanced_pool(pool: Seq<Missile>) -> Seq<Missile> {
    pool.map_values(|missile: Missile| missile.advanced())
}

/// The slots of `pool` that are active (or, with `active` false, inactive),
/// in their order.
pub open spec fn slots(pool: Seq<Missile>, active: bool) -> Seq<Missile> {
    pool.filter(|missile: Missile| missile.active == active)
}

/// The pool reordered for reuse: the inactive slots first, then the active
/// ones, each group in its former order.
pub open spec fn sorted_for_reuse(pool: Seq<Missile>) -> Seq<Missile> {
    slots(pool, false) + slots(pool, true)
}

/// How many slots of `pool` hold an active missile of type `missile_type`.
pub open spec fn live_count(pool: Seq<Missile>, missile_type: MissileType) -> nat
    decreases pool.len(),
{
    if pool.len() == 0 {
        0
    } else {
        live_count(pool.drop_last(), missile_type) + if is_live(pool.last(), missile_type) {
            1nat
        } else {
            0nat
        }
    }
}

impl MissileType {
    /// The data of the type.
    pub open spec fn data(self) -> MissileData {
        match self {
            MissileType::Normal => MissileData {
                initial_velocity: ChangingFactor { x: 1000, y: 0 },
                direction: ChangingFactor { x: FORTH, y: 0 },
                acceleration: ChangingFactor { x: 0, y: 0 },
                delay: 66_000_000,
            },
            MissileType::Bomb => MissileData {
                initial_velocity: ChangingFactor { x: 300, y: 0 },
                direction: ChangingFactor { x: FORTH, y: 0 },
                acceleration: ChangingFactor { x: 2000, y: 0 },
                delay: 100_000_000,
            },
        }
    }
}

impl Missile {
    /// The rectangle that the missile covers.
    pub open spec fn shape(self) -> Rectangle {
        Rectangle {
            position: self.position,
            size: Size::Rectangle(RectangleSize { width: MISSILE_WIDTH, height: MISSILE_HEIGHT }),
        }
    }

    /// The one force that moves the missile.
    pub open spec fn forces(self) -> Seq<Force> {
        seq![Force { direction: self.direction, acceleration: self.acceleration }]
    }

    /// Whether the top left corner of the missile lies in the window.
    pub open spec fn in_window(self) -> bool {
        let corner = self.shape().corners().top_left;
        0 <= corner.x <= WINDOW_WIDTH && 0 <= corner.y <= WINDOW_HEIGHT
    }

    /// The slot one step later: an inactive slot stays as it is, a missile
    /// that has left the window goes out of use, any other moves.
    pub open spec fn advanced(self) -> Missile {
        if !self.active {
            self
        } else if !self.in_window() {
            Missile { active: false, ..self }
        } else {
            Missile { position: position_after(self.shape(), self.velocity, self.forces()), ..self }
        }
    }

    /// A missile of type `missile_type` as it leaves the spaceship at
    /// `position`.
    pub open spec fn launched(missile_type: MissileType, position: Position) -> Missile {
        Missile {
            position,
            velocity: missile_type.data().initial_velocity,
            direction: missile_type.data().direction,
            acceleration: missile_type.data().acceleration,
            active: true,
            missile_type,
        }
    }

    /// What the missile's own slot holds after the missile struck an
    /// asteroid: a normal missile goes out of use, a bomb gives way to its
    /// first fragment.
    pub open spec fn struck(self) -> Missile {
        match self.missile_type {
            MissileType::Normal => Missile { active: false, ..self },
            MissileType::Bomb => fragment(self.position, 0),
        }
    }

    /// What the pool holds after the missile struck an asteroid, the
    /// missile's own slot left as it was: a bomb adds its other fragments.
    pub open spec fn scattered(self, pool: Seq<Missile>) -> Seq<Missile> {
        match self.missile_type {
            MissileType::Normal => pool,
            MissileType::Bomb => with_fragments(pool, self.position, 1),
        }
    }

    /// The lowest index of an asteroid of `lane` inside which a corner of
    /// the missile lies, or the lane's length where there is none.
    pub open spec fn first_hit(self, lane: Seq<Asteroid>) -> int
        decreases lane.len(),
    {
        if lane.len() == 0 || self.shape().overlaps(lane.first().shape()) {
            0
        } else {
            1 + self.first_hit(lane.drop_first())
        }
    }

    /// The first hit is an index of the lane or the lane's length; the
    /// missile overlaps the asteroid at it, and none before it.
    pub proof fn lemma_first_hit_is_first(self, lane: Seq<Asteroid>)
        ensures
            0 <= self.first_hit(lane) <= lane.len(),
            self.first_hit(lane) < lane.len() ==> self.shape().overlaps(
                lane[self.first_hit(lane)].shape(),
            ),
            forall|k: int|
                0 <= k < self.first_hit(lane) ==> !self.shape().overlaps((#[trigger] lane[k]).shape()),
        decreases lane.len(),
    {
        if lane.len() > 0 && !self.shape().overlaps(lane.first().shape()) {
            self.lemma_first_hit_is_first(lane.drop_first());
            assert forall|k: int| 0 <= k < self.first_hit(lane) implies !self.shape().overlaps(
                (#[trigger] lane[k]).shape(),
            ) by {
                if k > 0 {
                    assert(lane.drop_first()[k - 1] == lane[k]);
                }
            }
        }
    }

    /// `index` is the first hit of the missile in `lane` where the missile
    /// overlaps no asteroid before it, and overlaps the one at it unless it
    /// is the lane's end.
    pub proof fn lemma_first_hit(self, lane: Seq<Asteroid>, index: int)
        requires
            0 <= index <= lane.len(),
            forall|k: int| 0 <= k < index ==> !self.shape().overlaps((#[trigger] lane[k]).shape()),
            index < lane.len() ==> self.shape().overlaps(lane[index].shape()),
        ensures
            self.first_hit(lane) == index,
        decreases lane.len(),
    {
        if index > 0 {
            assert(!self.shape().overlaps(lane[0].shape()));
            assert forall|k: int| 0 <= k < index - 1 implies !self.shape().overlaps(
                (#[trigger] lane.drop_first()[k]).shape(),
            ) by {
                assert(lane.drop_first()[k] == lane[k + 1]);
            }
            self.lemma_first_hit(lane.drop_first(), index - 1);
        }
    }

    /// The first hit of the missile among the asteroids of `row`.
    pub fn find_hit(&self, row: &Vec<Asteroid>) -> (index: usize)
        ensures
            index == self.first_hit(row@),
    {
        let inside_rectangle = self.get_shape();
        let mut k: usize = 0;
        while k < row.len()
            invariant
                k <= row.len(),
                inside_rectangle == self.shape(),
                forall|j: int| 0 <= j < k ==> !self.shape().overlaps((#[trigger] row@[j]).shape()),
            decreases row.len() - k,
        {
            if inside_rectangle.over(row[k].get_shape()) {
                proof {
                    self.lemma_first_hit(row@, k as int);
                }
                return k;
            }
            k = k + 1;
        }
        proof {
            self.lemma_first_hit(row@, k as int);
        }
        k
    }

    /// The rectangle that the missile covers.
    pub fn get_shape(&self) -> (shape: Rectangle)
        ensures
            shape == self.shape(),
    {
        Rectangle {
            position: self.position,
            size: Size::Rectangle(RectangleSize { width: MISSILE_WIDTH, height: MISSILE_HEIGHT }),
        }
    }

    /// Moves every missile of the pool one step.
    pub fn update_missiles_position(missiles: &mut Vec<Missile>)
        ensures
            final(missiles)@ == advanced_pool(old(missiles)@),
    {
        let mut i: usize = 0;
        while i < missiles.len()
            invariant
                i <= missiles.len(),
                missiles.len() == old(missiles).len(),
                forall|k: int| 0 <= k < i ==> missiles[k] == old(missiles)[k].advanced(),
                forall|k: int| i <= k < missiles.len() ==> missiles[k] == old(missiles)[k],
            decreases missiles.len() - i,
        {
            let missile = missiles[i];
            if missile.active {
                let corners = missile.get_shape().get_corners();
                if corners.top_left.x as i64 > WINDOW_WIDTH as i64 || corners.top_left.x < 0
                    || corners.top_left.y as i64 > WINDOW_HEIGHT as i64 || corners.top_left.y < 0 {
                    missiles[i].active = false;
                } else {
                    let forces = vec![
                        Force { direction: missile.direction, acceleration: missile.acceleration },
                    ];
                    assert(forces@ =~= missile.forces());
                    missiles[i].position = next_position(missile.get_shape(), missile.velocity, forces);
                }
            }
            i = i + 1;
        }
        assert(missiles@ =~= advanced_pool(old(missiles)@));
    }

    /// The data of `missile_type`.
    pub fn get_types_data(missile_type: MissileType) -> (data: MissileData)
        ensures
            data == missile_type.data(),
    {
        match missile_type {
            MissileType::Normal => missiles::Normal::get_missile_data(),
            MissileType::Bomb => missiles::Bomb::get_missile_data(),
        }
    }

    /// Lets `missile`, which struck `asteroid`, do what its type does on a
    /// collision.
    pub fn handle_collision(game: &mut Game, missile: &mut Missile, asteroid: &mut Asteroid)
        ensures
            *final(asteroid) == old(asteroid).hit(),
            *final(missile) == old(missile).struck(),
            final(game)@ == (crate::game::GameView {
                missiles: old(missile).scattered(old(game)@.missiles),
                ..old(game)@
            }),
    {
        match missile.missile_type {
            MissileType::Normal => missiles::Normal::collision_handler(game, missile, asteroid),
            MissileType::Bomb => missiles::Bomb::collision_handler(game, missile, asteroid),
        }
    }

    /// Puts `missile` into the lowest inactive slot of the pool, or at the
    /// pool's end where every slot is active.
    pub fn place(missiles: &mut Vec<Missile>, missile: Missile)
        ensures
            final(missiles)@ == placed(old(missiles)@, missile),
    {
        let mut i: usize = 0;
        while i < missiles.len()
            invariant
                i <= missiles.len(),
                *missiles == *old(missiles),
                forall|k: int| 0 <= k < i ==> missiles[k].active,
            decreases missiles.len() - i,
        {
            if !missiles[i].active {
                proof {
                    lemma_free_slot(missiles@, i as int);
                }
                missiles[i] = missile;
                return;
            }
            i = i + 1;
        }
        proof {
            lemma_free_slot(missiles@, i as int);
        }
        missiles.push(missile);
    }

    /// Reorders the pool for reuse: the inactive slots first, then the
    /// active ones, each group in its former order. The pool keeps its
    /// length, and its first slot is free where any was.
    pub fn sort_for_reuse(missiles: &mut Vec<Missile>)
        ensures
            final(missiles)@ == sorted_for_reuse(old(missiles)@),
            final(missiles).len() == old(missiles).len(),
            free_slot(old(missiles)@) < old(missiles).len() ==> !final(missiles)[0].active,
    {
        proof {
            lemma_sorted_for_reuse(missiles@);
            lemma_free_slot_is_first(sorted_for_reuse(missiles@));
        }
        let mut sorted: Vec<Missile> = Vec::new();
        let mut i: usize = 0;
        while i < missiles.len()
            invariant
                i <= missiles.len(),
                sorted@ == slots(missiles@.take(i as int), false),
            decreases missiles.len() - i,
        {
            proof {
                reveal(Seq::filter);
                assert(missiles@.take(i + 1).drop_last() =~= missiles@.take(i as int));
            }
            if !missiles[i].active {
                sorted.push(missiles[i]);
            }
            i = i + 1;
        }
        assert(missiles@.take(missiles.len() as int) =~= missiles@);
        let ghost idle = sorted@;
        let mut i: usize = 0;
        while i < missiles.len()
            invariant
                i <= missiles.len(),
                sorted@ == idle + slots(missiles@.take(i as int), true),
            decreases missiles.len() - i,
        {
            proof {
                reveal(Seq::filter);
                assert(missiles@.take(i + 1).drop_last() =~= missiles@.take(i as int));
            }
            if missiles[i].active {
                sorted.push(missiles[i]);
                assert(sorted@ =~= idle + slots(missiles@.take(i + 1), true));
            }
            i = i + 1;
        }
        assert(missiles@.take(missiles.len() as int) =~= missiles@);
        *missiles = sorted;
    }
}

/// The free slot is a slot of the pool or the pool's end; it is inactive,
/// and every slot before it is active.
pub proof fn lemma_free_slot_is_first(pool: Seq<Missile>)
    ensures
        0 <= free_slot(pool) <= pool.len(),
        free_slot(pool) < pool.len() ==> !pool[free_slot(pool)].active,
        forall|k: int| 0 <= k < free_slot(pool) ==> pool[k].active,
    decreases pool.len(),
{
    if pool.len() > 0 && pool.first().active {
        lemma_free_slot_is_first(pool.drop_first());
        assert forall|k: int| 0 <= k < free_slot(pool) implies pool[k].active by {
            if k > 0 {
                assert(pool.drop_first()[k - 1] == pool[k]);
            }
        }
    }
}

/// Placing a missile never shortens the pool, and leaves every slot but
/// the one it takes as it was.
pub proof fn lemma_placed(pool: Seq<Missile>, missile: Missile)
    ensures
        pool.len() <= placed(pool, missile).len() <= pool.len() + 1,
        placed(pool, missile)[free_slot(pool)] == missile,
        forall|k: int|
            0 <= k < pool.len() && k != free_slot(pool) ==> placed(pool, missile)[k] == pool[k],
{
    lemma_free_slot_is_first(pool);
}

/// The fragments of a bomb never shorten the pool, and leave every active
/// slot as it was.
pub proof fn lemma_with_fragments(pool: Seq<Missile>, position: Position, first: int)
    requires
        0 <= first,
    ensures
        pool.len() <= with_fragments(pool, position, first).len(),
        forall|k: int|
            0 <= k < pool.len() && pool[k].active ==> with_fragments(pool, position, first)[k]
                == pool[k],
    decreases FRAGMENTS - first,
{
    if first < FRAGMENTS {
        let next = placed(pool, fragment(position, first));
        lemma_free_slot_is_first(pool);
        lemma_placed(pool, fragment(position, first));
        lemma_with_fragments(next, position, first + 1);
    }
}

/// Whether `missile` is an active missile of type `missile_type`.
pub open spec fn is_live(missile: Missile, missile_type: MissileType) -> bool {
    missile.active && missile.missile_type == missile_type
}

/// A slot that takes another missile changes the count of a type by what
/// comes less what goes.
pub proof fn lemma_live_count_update(pool: Seq<Missile>, slot: int, missile: Missile, missile_type: MissileType)
    requires
        0 <= slot < pool.len(),
    ensures
        live_count(pool.update(slot, missile), missile_type) + (if is_live(pool[slot], missile_type) {
            1nat
        } else {
            0nat
        }) == live_count(pool, missile_type) + (if is_live(missile, missile_type) {
            1nat
        } else {
            0nat
        }),
    decreases pool.len(),
{
    let after = pool.update(slot, missile);
    if slot == pool.len() - 1 {
        assert(after.drop_last() =~= pool.drop_last());
    } else {
        lemma_live_count_update(pool.drop_last(), slot, missile, missile_type);
        assert(after.drop_last() =~= pool.drop_last().update(slot, missile));
    }
}

/// A missile that is placed adds one to the count of its type where it is
/// active, and changes no other count.
pub proof fn lemma_live_count_placed(pool: Seq<Missile>, missile: Missile, missile_type: MissileType)
    ensures
        live_count(placed(pool, missile), missile_type) == live_count(pool, missile_type) + (
        if is_live(missile, missile_type) {
            1nat
        } else {
            0nat
        }),
{
    lemma_free_slot_is_first(pool);
    if free_slot(pool) < pool.len() {
        lemma_live_count_update(pool, free_slot(pool), missile, missile_type);
    } else {
        assert(pool.push(missile).drop_last() =~= pool);
    }
}

/// The fragments `first`, .., `FRAGMENTS - 1` of a bomb add as many active
/// normal missiles to the pool, and no bomb.
pub proof fn lemma_live_count_with_fragments(pool: Seq<Missile>, position: Position, first: int)
    requires
        0 <= first <= FRAGMENTS,
    ensures
        live_count(with_fragments(pool, position, first), MissileType::Normal) == live_count(
            pool,
            MissileType::Normal,
        ) + FRAGMENTS - first,
        live_count(with_fragments(pool, position, first), MissileType::Bomb) == live_count(
            pool,
            MissileType::Bomb,
        ),
    decreases FRAGMENTS - first,
{
    if first < FRAGMENTS {
        let next = placed(pool, fragment(position, first));
        lemma_live_count_placed(pool, fragment(position, first), MissileType::Normal);
        lemma_live_count_placed(pool, fragment(position, first), MissileType::Bomb);
        lemma_live_count_with_fragments(next, position, first + 1);
    }
}

/// A bomb that strikes leaves the pool with six more active normal missiles
/// and one bomb less: its first fragment in its own slot, the other five in
/// slots that were free or new.
pub proof fn lemma_bomb_yields_six(pool: Seq<Missile>, slot: int)
    requires
        0 <= slot < pool.len(),
        pool[slot].active,
        pool[slot].missile_type == MissileType::Bomb,
    ensures
        live_count(
            pool[slot].scattered(pool).update(slot, pool[slot].struck()),
            MissileType::Normal,
        ) == live_count(pool, MissileType::Normal) + 6,
        live_count(pool[slot].scattered(pool).update(slot, pool[slot].struck()), MissileType::Bomb)
            + 1 == live_count(pool, MissileType::Bomb),
{
    let bomb = pool[slot];
    let scattered = bomb.scattered(pool);
    lemma_with_fragments(pool, bomb.position, 1);
    lemma_live_count_with_fragments(pool, bomb.position, 1);
    lemma_live_count_update(scattered, slot, bomb.struck(), MissileType::Normal);
    lemma_live_count_update(scattered, slot, bomb.struck(), MissileType::Bomb);
}

/// A pool reordered for reuse holds as many slots as before, and none that
/// is active before one that is inactive: where any slot is free, the first
/// is.
pub proof fn lemma_sorted_for_reuse(pool: Seq<Missile>)
    ensures
        sorted_for_reuse(pool).len() == pool.len(),
        forall|i: int, j: int|
            0 <= i < j < pool.len() && sorted_for_reuse(pool)[i].active ==> sorted_for_reuse(
                pool,
            )[j].active,
        free_slot(pool) < pool.len() ==> free_slot(sorted_for_reuse(pool)) == 0,
{
    let idle = |missile: Missile| missile.active == false;
    let live = |missile: Missile| missile.active == true;
    lemma_slots_share(pool);
    let sorted = sorted_for_reuse(pool);
    assert forall|i: int| 0 <= i < slots(pool, false).len() implies !(#[trigger] sorted[i]).active by {
        pool.lemma_filter_pred(idle, i);
    }
    assert forall|j: int| slots(pool, false).len() <= j < sorted.len() implies (#[trigger] sorted[j]).active by {
        pool.lemma_filter_pred(live, j - slots(pool, false).len());
    }
    lemma_free_slot_is_first(pool);
    if free_slot(pool) < pool.len() {
        if slots(pool, false).len() == 0 {
            assert(sorted[free_slot(pool)].active);
            lemma_all_live(pool);
        }
        lemma_free_slot(sorted, 0);
    }
}

/// The active and the inactive slots of a pool are all its slots.
proof fn lemma_slots_share(pool: Seq<Missile>)
    ensures
        slots(pool, false).len() + slots(pool, true).len() == pool.len(),
    decreases pool.len(),
{
    reveal(Seq::filter);
    if pool.len() > 0 {
        lemma_slots_share(pool.drop_last());
    }
}

/// A pool without inactive slots holds active missiles alone.
proof fn lemma_all_live(pool: Seq<Missile>)
    requires
        slots(pool, false).len() == 0,
    ensures
        forall|k: int| 0 <= k < pool.len() ==> (#[trigger] pool[k]).active,
    decreases pool.len(),
{
    reveal(Seq::filter);
    if pool.len() > 0 {
        lemma_all_live(pool.drop_last());
        assert forall|k: int| 0 <= k < pool.len() implies (#[trigger] pool[k]).active by {
            if k < pool.len() - 1 {
                assert(pool.drop_last()[k] == pool[k]);
            }
        }
    }
}

/// `slot` is the free slot of `pool` where every slot before it is active
/// and it is inactive itself or lies at the pool's end.
pub proof fn lemma_free_slot(pool: Seq<Missile>, slot: int)
    requires
        0 <= slot <= pool.len(),
        forall|k: int| 0 <= k < slot ==> pool[k].active,
        slot < pool.len() ==> !pool[slot].active,
    ensures
        free_slot(pool) == slot,
    decreases pool.len(),
{
    if slot > 0 {
        lemma_free_slot(pool.drop_first(), slot - 1);
    }
}

} // verus!
