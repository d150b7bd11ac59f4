use flooting::asteroid::{Asteroid, DRIFT_ACCELERATION};
use flooting::game::Game;
use flooting::missile::missiles::{Bomb, Normal};
use flooting::missile::{Missile, MissileData, MissileType, FRAGMENTS};
use flooting::physics::{ChangingFactor, Position, BACK, FORTH};
use flooting::time::to_nano;

fn asteroid(x: i32, y: i32, row: usize, size: u8) -> Asteroid {
    Asteroid {
        position: Position { x, y },
        row,
        size,
        velocity: ChangingFactor { x: 200, y: 0 },
        direction: ChangingFactor { x: BACK, y: 0 },
        acceleration: ChangingFactor { x: DRIFT_ACCELERATION, y: 0 },
    }
}

fn missile(missile_type: MissileType, x: i32, y: i32, active: bool) -> Missile {
    let data = Missile::get_types_data(missile_type);
    Missile {
        position: Position { x, y },
        velocity: data.initial_velocity,
        direction: data.direction,
        acceleration: data.acceleration,
        active,
        missile_type,
    }
}

fn normal(x: i32, y: i32, active: bool) -> Missile {
    missile(MissileType::Normal, x, y, active)
}

fn bomb(x: i32, y: i32, active: bool) -> Missile {
    missile(MissileType::Bomb, x, y, active)
}

fn fragment(x: i32, y: i32, dx: i32, dy: i32) -> Missile {
    Missile {
        position: Position { x, y },
        velocity: ChangingFactor { x: 500, y: 500 },
        direction: ChangingFactor { x: dx, y: dy },
        acceleration: ChangingFactor { x: 0, y: 0 },
        active: true,
        missile_type: MissileType::Normal,
    }
}

fn live(pool: &[Missile], missile_type: MissileType) -> usize {
    pool.iter().filter(|slot| slot.active && slot.missile_type == missile_type).count()
}

#[test]
fn the_data_of_a_normal_missile() {
    let data = Normal::get_missile_data();
    assert_eq!(
        data,
        MissileData {
            initial_velocity: ChangingFactor { x: 1000, y: 0 },
            direction: ChangingFactor { x: 100, y: 0 },
            acceleration: ChangingFactor { x: 0, y: 0 },
            delay: 66_000_000,
        }
    );
    assert_eq!(data.delay, to_nano(1000 / 15));
    assert_eq!(Missile::get_types_data(MissileType::Normal), data);
}

#[test]
fn the_data_of_a_bomb() {
    let data = Bomb::get_missile_data();
    assert_eq!(
        data,
        MissileData {
            initial_velocity: ChangingFactor { x: 300, y: 0 },
            direction: ChangingFactor { x: 100, y: 0 },
            acceleration: ChangingFactor { x: 2000, y: 0 },
            delay: 100_000_000,
        }
    );
    assert_eq!(data.delay, to_nano(1000 / 10));
    assert_eq!(Missile::get_types_data(MissileType::Bomb), data);
}

#[test]
fn the_directions_of_the_fragments() {
    assert_eq!(FRAGMENTS, 6);
    assert_eq!(Bomb::lookup_direction(0), ChangingFactor { x: -100, y: -100 });
    assert_eq!(Bomb::lookup_direction(1), ChangingFactor { x: 0, y: -100 });
    assert_eq!(Bomb::lookup_direction(2), ChangingFactor { x: 100, y: -100 });
    assert_eq!(Bomb::lookup_direction(3), ChangingFactor { x: 100, y: 0 });
    assert_eq!(Bomb::lookup_direction(4), ChangingFactor { x: 100, y: 100 });
    assert_eq!(Bomb::lookup_direction(5), ChangingFactor { x: 0, y: 100 });
}

#[test]
fn the_shape_of_a_missile() {
    let corners = normal(100, 50, true).get_shape().get_corners();
    assert_eq!(corners.top_left, Position { x: 93, y: 45 });
    assert_eq!(corners.bottom_right, Position { x: 107, y: 55 });
}

#[test]
fn a_missile_goes_into_the_lowest_free_slot() {
    let mut pool = vec![normal(1, 1, true), normal(2, 2, false), normal(3, 3, false)];
    Missile::place(&mut pool, bomb(9, 9, true));
    assert_eq!(pool, vec![normal(1, 1, true), bomb(9, 9, true), normal(3, 3, false)]);
}

#[test]
fn a_missile_goes_to_the_end_of_a_full_pool() {
    let mut pool = vec![normal(1, 1, true), normal(2, 2, true)];
    Missile::place(&mut pool, bomb(9, 9, true));
    assert_eq!(pool, vec![normal(1, 1, true), normal(2, 2, true), bomb(9, 9, true)]);
}

#[test]
fn a_missile_goes_into_an_empty_pool() {
    let mut pool = Vec::new();
    Missile::place(&mut pool, normal(9, 9, true));
    assert_eq!(pool, vec![normal(9, 9, true)]);
}

#[test]
fn sorting_puts_the_free_slots_first_and_keeps_the_order() {
    let mut pool = vec![
        normal(1, 0, true),
        normal(2, 0, false),
        bomb(3, 0, true),
        bomb(4, 0, false),
        normal(5, 0, true),
    ];
    Missile::sort_for_reuse(&mut pool);
    assert_eq!(
        pool,
        vec![
            normal(2, 0, false),
            bomb(4, 0, false),
            normal(1, 0, true),
            bomb(3, 0, true),
            normal(5, 0, true),
        ]
    );
}

#[test]
fn sorting_a_sorted_pool_changes_nothing() {
    let mut pool = vec![normal(2, 0, false), normal(1, 0, true), bomb(3, 0, true)];
    let before = pool.clone();
    Missile::sort_for_reuse(&mut pool);
    assert_eq!(pool, before);
    let mut none: Vec<Missile> = Vec::new();
    Missile::sort_for_reuse(&mut none);
    assert!(none.is_empty());
}

#[test]
fn active_missiles_move() {
    let mut pool = vec![normal(56, 422, true), bomb(56, 422, true)];
    Missile::update_missiles_position(&mut pool);
    assert_eq!(pool, vec![normal(66, 422, true), bomb(60, 422, true)]);
}

#[test]
fn free_slots_do_not_move() {
    let mut pool = vec![normal(56, 422, false), normal(-500, 9000, false)];
    let before = pool.clone();
    Missile::update_missiles_position(&mut pool);
    assert_eq!(pool, before);
}

#[test]
fn a_missile_that_left_the_window_goes_out_of_use() {
    // The corner lies 7 left of and 5 above the centre.
    let mut pool = vec![
        normal(1208, 100, true),
        normal(6, 100, true),
        normal(100, 851, true),
        normal(100, 4, true),
    ];
    Missile::update_missiles_position(&mut pool);
    assert_eq!(
        pool,
        vec![
            normal(1208, 100, false),
            normal(6, 100, false),
            normal(100, 851, false),
            normal(100, 4, false),
        ]
    );
}

#[test]
fn a_missile_at_the_edge_of_the_window_still_moves() {
    let mut pool = vec![normal(1207, 850, true), normal(7, 5, true)];
    Missile::update_missiles_position(&mut pool);
    assert_eq!(pool, vec![normal(1217, 850, true), normal(17, 5, true)]);
}

#[test]
fn the_pool_keeps_its_length_when_missiles_move() {
    let mut pool = vec![normal(5000, 100, true), normal(56, 100, false), bomb(56, 100, true)];
    Missile::update_missiles_position(&mut pool);
    assert_eq!(pool.len(), 3);
}

#[test]
fn a_missile_finds_the_first_asteroid_it_overlaps() {
    let shot = normal(1000, 140, true);
    let lane = vec![asteroid(500, 139, 1, 2), asteroid(1010, 139, 1, 2), asteroid(1005, 139, 1, 2)];
    assert_eq!(shot.find_hit(&lane), 1);
    assert_eq!(shot.find_hit(&vec![asteroid(500, 139, 1, 2)]), 1);
    assert_eq!(shot.find_hit(&Vec::new()), 0);
}

#[test]
fn a_normal_missile_that_strikes() {
    let mut game = Game::new();
    game.missiles = vec![normal(1, 1, true), normal(2, 2, false)];
    let before = game.clone();
    let mut shot = normal(1000, 140, true);
    let mut struck = asteroid(1010, 139, 1, 3);
    Normal::collision_handler(&mut game, &mut shot, &mut struck);
    assert_eq!(struck, asteroid(1010, 139, 1, 2));
    assert_eq!(shot, normal(1000, 140, false));
    assert_eq!(game.missiles, before.missiles);
    assert_eq!(game.asteroids, before.asteroids);
    assert_eq!(game.state, before.state);
    assert_eq!(game.spaceship, before.spaceship);
}

#[test]
fn an_asteroid_without_size_cannot_shrink() {
    let mut game = Game::new();
    let mut shot = normal(1000, 140, true);
    let mut struck = asteroid(1010, 139, 1, 0);
    Normal::collision_handler(&mut game, &mut shot, &mut struck);
    assert_eq!(struck.size, 0);
    let mut burst = bomb(1000, 140, true);
    Bomb::collision_handler(&mut game, &mut burst, &mut struck);
    assert_eq!(struck.size, 0);
}

#[test]
fn a_bomb_that_strikes_bursts_into_six_normal_missiles() {
    let mut game = Game::new();
    game.missiles = vec![bomb(1000, 140, true), normal(3, 3, true)];
    let before = game.clone();
    let mut burst = game.missiles[0];
    let mut struck = asteroid(1010, 139, 1, 3);
    Bomb::collision_handler(&mut game, &mut burst, &mut struck);
    game.missiles[0] = burst;
    assert_eq!(struck, asteroid(1010, 139, 1, 2));
    assert_eq!(
        game.missiles,
        vec![
            fragment(1000, 140, -100, -100),
            normal(3, 3, true),
            fragment(1000, 140, 0, -100),
            fragment(1000, 140, 100, -100),
            fragment(1000, 140, 100, 0),
            fragment(1000, 140, 100, 100),
            fragment(1000, 140, 0, 100),
        ]
    );
    assert_eq!(live(&game.missiles, MissileType::Normal), live(&before.missiles, MissileType::Normal) + 6);
    assert_eq!(live(&game.missiles, MissileType::Bomb), 0);
    assert_eq!(game.asteroids, before.asteroids);
    assert_eq!(game.state, before.state);
}

#[test]
fn the_fragments_of_a_bomb_take_the_free_slots_first() {
    let mut game = Game::new();
    game.missiles = vec![
        normal(1, 1, false),
        bomb(1000, 140, true),
        normal(2, 2, false),
        normal(3, 3, true),
        bomb(4, 4, false),
    ];
    let mut burst = game.missiles[1];
    let mut struck = asteroid(1010, 139, 1, 1);
    Bomb::collision_handler(&mut game, &mut burst, &mut struck);
    assert_eq!(burst, fragment(1000, 140, -100, -100));
    assert_eq!(struck.size, 0);
    assert_eq!(
        game.missiles,
        vec![
            fragment(1000, 140, 0, -100),
            bomb(1000, 140, true),
            fragment(1000, 140, 100, -100),
            normal(3, 3, true),
            fragment(1000, 140, 100, 0),
            fragment(1000, 140, 100, 100),
            fragment(1000, 140, 0, 100),
        ]
    );
}

#[test]
fn a_collision_is_handled_by_the_type_of_the_missile() {
    let mut game = Game::new();
    let mut shot = normal(1000, 140, true);
    let mut struck = asteroid(1010, 139, 1, 3);
    Missile::handle_collision(&mut game, &mut shot, &mut struck);
    assert_eq!(shot, normal(1000, 140, false));
    assert_eq!(struck.size, 2);
    assert!(game.missiles.is_empty());
    let mut burst = bomb(1000, 140, true);
    Missile::handle_collision(&mut game, &mut burst, &mut struck);
    assert_eq!(burst, fragment(1000, 140, -100, -100));
    assert_eq!(struck.size, 1);
    assert_eq!(game.missiles.len(), 5);
    assert_eq!(live(&game.missiles, MissileType::Normal), 5);
}

#[test]
fn the_fragments_fly_apart() {
    let mut pool = vec![
        fragment(100, 200, BACK, BACK),
        fragment(100, 200, 0, BACK),
        fragment(100, 200, FORTH, BACK),
        fragment(100, 200, FORTH, 0),
        fragment(100, 200, FORTH, FORTH),
        fragment(100, 200, 0, FORTH),
    ];
    Missile::update_missiles_position(&mut pool);
    let places: Vec<Position> = pool.iter().map(|slot| slot.position).collect();
    assert_eq!(
        places,
        vec![
            Position { x: 95, y: 195 },
            Position { x: 100, y: 195 },
            Position { x: 105, y: 195 },
            Position { x: 105, y: 200 },
            Position { x: 105, y: 205 },
            Position { x: 100, y: 205 },
        ]
    );
}
