//! What holds of every game: the lanes keep their asteroids, and a missile
//! its lane.

use vstd::prelude::*;
use crate::asteroid::{in_lanes, lemma_advanced_and_pruned, Asteroid};
use crate::game::view::{
    crashed_into_by_field,
    crashed_into_by_lane,
    lane_of,
    later,
    with_spawned,
    GameView,
};
use crate::game::{Spaceship, State};
use crate::settings::NEXT_GENERATION_DELAY;
use crate::helper::U2GMessage;
use crate::missile::{lemma_with_fragments, Missile};

verus! {

/// What `GameView::lemma_crashed` says, of the asteroids of one lane.
proof fn lemma_crashed_into_by_lane(ship: Spaceship, state: State, lane: Seq<Asteroid>)
    ensures
        crashed_into_by_lane(ship, state, lane).0.life <= ship.life,
        crashed_into_by_lane(ship, state, lane).0 == (Spaceship {
            life: crashed_into_by_lane(ship, state, lane).0.life,
            ..ship
        }),
        crashed_into_by_lane(ship, state, lane).1 != state ==> crashed_into_by_lane(
            ship,
            state,
            lane,
        ).1 is Died && crashed_into_by_lane(ship, state, lane).0.life == 0,
    decreases lane.len(),
{
    if lane.len() > 0 {
        lemma_crashed_into_by_lane(ship, state, lane.drop_last());
    }
}

/// What `GameView::lemma_crashed` says, of the asteroids of a field.
proof fn lemma_crashed_into_by_field(ship: Spaceship, state: State, field: Seq<Seq<Asteroid>>)
    ensures
        crashed_into_by_field(ship, state, field).0.life <= ship.life,
        crashed_into_by_field(ship, state, field).0 == (Spaceship {
            life: crashed_into_by_field(ship, state, field).0.life,
            ..ship
        }),
        crashed_into_by_field(ship, state, field).1 != state ==> crashed_into_by_field(
            ship,
            state,
            field,
        ).1 is Died && crashed_into_by_field(ship, state, field).0.life == 0,
    decreases field.len(),
{
    if field.len() > 0 {
        lemma_crashed_into_by_field(ship, state, field.drop_last());
        let before = crashed_into_by_field(ship, state, field.drop_last());
        lemma_crashed_into_by_lane(before.0, before.1, field.last());
    }
}

impl GameView {
    /// The missiles' turn to strike leaves the lanes as many and every
    /// asteroid in its lane, and never shortens the pool.
    pub proof fn lemma_collided_upto(self, snapshot: Seq<Missile>, count: nat)
        requires
            count <= snapshot.len() <= self.missiles.len(),
        ensures
            self.collided_upto(snapshot, count).asteroids.len() == self.asteroids.len(),
            in_lanes(self.asteroids) ==> in_lanes(self.collided_upto(snapshot, count).asteroids),
            self.collided_upto(snapshot, count).missiles.len() >= self.missiles.len(),
            self.collided_upto(snapshot, count) == (GameView {
                missiles: self.collided_upto(snapshot, count).missiles,
                asteroids: self.collided_upto(snapshot, count).asteroids,
                ..self
            }),
        decreases count,
    {
        if count > 0 {
            let before = self.collided_upto(snapshot, (count - 1) as nat);
            self.lemma_collided_upto(snapshot, (count - 1) as nat);
            let missile = snapshot[count - 1];
            let lane = lane_of(missile.position.y as int);
            if missile.active && 0 <= lane < before.asteroids.len() {
                lemma_with_fragments(before.missiles, missile.position, 1);
                let hit = missile.first_hit(before.asteroids[lane]);
                missile.lemma_first_hit_is_first(before.asteroids[lane]);
                if hit < before.asteroids[lane].len() {
                    let after = before.resolved(snapshot, count - 1);
                    let struck = before.asteroids[lane].update(hit, before.asteroids[lane][hit].hit());
                    assert(after.asteroids == before.asteroids.update(lane, struck));
                    if in_lanes(self.asteroids) {
                        assert forall|r: int, k: int|
                            0 <= r < after.asteroids.len() && 0 <= k < after.asteroids[r].len() implies (
                        #[trigger] after.asteroids[r][k]).row == r by {
                            assert(before.asteroids[r][k].row == r);
                            if r == lane {
                                assert(after.asteroids[r] == struck);
                            } else {
                                assert(after.asteroids[r] == before.asteroids[r]);
                            }
                        }
                    }
                }
            }
        }
    }

    /// The turn of a missile leaves every lane but the missile's own as it
    /// was.
    pub proof fn lemma_resolved_is_local(self, snapshot: Seq<Missile>, i: int, row: int)
        requires
            0 <= i < snapshot.len(),
            0 <= row < self.asteroids.len(),
            lane_of(snapshot[i].position.y as int) != row,
        ensures
            self.resolved(snapshot, i).asteroids[row] == self.asteroids[row],
    {
    }

    /// The missiles' turn to strike leaves a lane as it was where no active
    /// missile lies in it.
    pub proof fn lemma_collided_is_local(self, row: int)
        requires
            0 <= row < self.asteroids.len(),
            forall|i: int|
                0 <= i < self.missiles.len() && (#[trigger] self.missiles[i]).active ==> lane_of(
                    self.missiles[i].position.y as int,
                ) != row,
        ensures
            self.collided().asteroids[row] == self.asteroids[row],
    {
        self.lemma_collided_upto_is_local(self.missiles, self.missiles.len(), row);
    }

    /// Where every asteroid lies in the lane that holds it, the missiles'
    /// turn to strike changes no asteroid in whose lane no active missile
    /// lies: a missile of one lane never strikes an asteroid of another.
    pub proof fn lemma_collided_spares_other_lanes(self, row: int, index: int)
        requires
            in_lanes(self.asteroids),
            0 <= row < self.asteroids.len(),
            0 <= index < self.asteroids[row].len(),
            forall|i: int|
                0 <= i < self.missiles.len() && (#[trigger] self.missiles[i]).active ==> lane_of(
                    self.missiles[i].position.y as int,
                ) != self.asteroids[row][index].row,
        ensures
            self.collided().asteroids[row].len() == self.asteroids[row].len(),
            self.collided().asteroids[row][index] == self.asteroids[row][index],
    {
        self.lemma_collided_is_local(row);
    }

    proof fn lemma_collided_upto_is_local(self, snapshot: Seq<Missile>, count: nat, row: int)
        requires
            count <= snapshot.len() <= self.missiles.len(),
            0 <= row < self.asteroids.len(),
            forall|i: int|
                0 <= i < snapshot.len() && (#[trigger] snapshot[i]).active ==> lane_of(
                    snapshot[i].position.y as int,
                ) != row,
        ensures
            self.collided_upto(snapshot, count).asteroids[row] == self.asteroids[row],
        decreases count,
    {
        if count > 0 {
            self.lemma_collided_upto_is_local(snapshot, (count - 1) as nat, row);
            self.lemma_collided_upto(snapshot, (count - 1) as nat);
            let before = self.collided_upto(snapshot, (count - 1) as nat);
            if snapshot[count - 1].active {
                before.lemma_resolved_is_local(snapshot, count - 1, row);
            }
        }
    }

    /// Crashes take life and give none, change nothing of the spaceship but
    /// its life, and change the state only by ending the game, which they do
    /// only when no life is left.
    pub proof fn lemma_crashed(self)
        ensures
            self.crashed().spaceship.life <= self.spaceship.life,
            self.crashed().spaceship == (Spaceship {
                life: self.crashed().spaceship.life,
                ..self.spaceship
            }),
            self.crashed().state != self.state ==> self.crashed().state is Died
                && self.crashed().spaceship.life == 0,
    {
        lemma_crashed_into_by_field(self.spaceship, self.state, self.asteroids);
    }

    /// A frame leaves the state as it was, or ends the game, or takes a
    /// running game to the wait for the next generation, or takes a game that
    /// waits for it back to running.
    pub proof fn lemma_updated_state(
        self,
        now: u128,
        field: Seq<Seq<Asteroid>>,
        extra: Seq<Asteroid>,
    )
        ensures
            ({
                let after = self.updated(now, field, extra).state;
                ||| after == self.state
                ||| after is Died
                ||| self.state is Running && after == State::NextGen(later(now, NEXT_GENERATION_DELAY))
                ||| self.frames_pass() && after is Running
            }),
    {
        let regenerated = self.empty_field_noticed(now).regenerated(now, field);
        regenerated.lemma_crashed();
        let fired = regenerated.crashed().pool_sorted().fired(now);
        fired.lemma_collided_upto(fired.missiles, fired.missiles.len());
    }

    /// Added asteroids leave the lanes as many, and every asteroid in its
    /// lane where each of them names a lane of the field.
    pub proof fn lemma_with_spawned(field: Seq<Seq<Asteroid>>, extra: Seq<Asteroid>)
        requires
            forall|i: int| 0 <= i < extra.len() ==> (#[trigger] extra[i]).row < field.len(),
        ensures
            with_spawned(field, extra).len() == field.len(),
            in_lanes(field) ==> in_lanes(with_spawned(field, extra)),
        decreases extra.len(),
    {
        if extra.len() > 0 {
            Self::lemma_with_spawned(field, extra.drop_last());
            let before = with_spawned(field, extra.drop_last());
            let after = with_spawned(field, extra);
            assert(extra[extra.len() - 1].row < field.len());
            if in_lanes(field) {
                assert forall|r: int, k: int|
                    0 <= r < after.len() && 0 <= k < after[r].len() implies (#[trigger] after[r][k]).row
                    == r by {
                    if k < before[r].len() {
                        assert(before[r][k].row == r);
                    }
                }
            }
        }
    }

    /// A frame keeps a well-formed game well formed: the lanes stay as many,
    /// and every asteroid stays in the lane that holds it.
    pub proof fn lemma_updated_wf(self, now: u128, field: Seq<Seq<Asteroid>>, extra: Seq<Asteroid>)
        requires
            self.wf(),
            self.generates(now, field, extra),
        ensures
            self.before_spawn(now, field).wf(),
            self.updated(now, field, extra).wf(),
    {
        let fired = self.empty_field_noticed(now).regenerated(
            now,
            field,
        ).crashed().pool_sorted().fired(now);
        assert(fired.wf());
        fired.lemma_collided_upto(fired.missiles, fired.missiles.len());
        let before = self.before_spawn(now, field);
        assert(before.wf());
        Self::lemma_with_spawned(before.asteroids, extra);
        lemma_advanced_and_pruned(before.spawned(extra).asteroids);
        lemma_advanced_and_pruned(before.spawned(extra).asteroids_advanced().asteroids);
    }

    /// Messages change neither the field nor the pool.
    pub proof fn lemma_after_messages(self, messages: Seq<U2GMessage>)
        ensures
            self.after_messages(messages).asteroids == self.asteroids,
            self.after_messages(messages).missiles == self.missiles,
        decreases messages.len(),
    {
        if messages.len() > 0 {
            self.lemma_after_messages(messages.drop_last());
        }
    }
}

} // verus!
