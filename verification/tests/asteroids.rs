use flooting::asteroid::{advance_row, used_row, Asteroid, DRIFT_ACCELERATION};
use flooting::game::AsteroidRows;
use flooting::physics::{ChangingFactor, Position, BACK};
use flooting::settings;

fn asteroid(x: i32, y: i32, row: usize, size: u8) -> Asteroid {
    Asteroid {
        position: Position { x, y },
        row,
        size,
        velocity: ChangingFactor { x: 200, y: 0 },
        direction: ChangingFactor { x: BACK, y: 0 },
        acceleration: ChangingFactor { x: DRIFT_ACCELERATION, y: 0 },
    }
}

fn empty_field() -> AsteroidRows {
    vec![vec![]; settings::ASTEROIDS_ROWS]
}

fn is_fresh(asteroid: &Asteroid) -> bool {
    let nearest = 1200 + 22 * asteroid.size as i32;
    asteroid.size == 2
        && nearest <= asteroid.position.x
        && asteroid.position.x < nearest + 100
        && asteroid.position.y == 93 * asteroid.row as i32 + 46
        && asteroid.velocity == (ChangingFactor { x: 200, y: 0 })
        && asteroid.direction == (ChangingFactor { x: -100, y: 0 })
        && asteroid.acceleration == (ChangingFactor { x: 4, y: 0 })
}

#[test]
fn a_spawned_asteroid() {
    let spawned = Asteroid::spawn(3, 2, 10, 2);
    assert_eq!(spawned.position, Position { x: 1254, y: 325 });
    assert_eq!(spawned.row, 3);
    assert_eq!(spawned.size, 2);
    assert_eq!(spawned.velocity, ChangingFactor { x: 200, y: 0 });
    assert_eq!(spawned.direction, ChangingFactor { x: -100, y: 0 });
    assert_eq!(spawned.acceleration, ChangingFactor { x: 4, y: 0 });
}

#[test]
fn a_spawned_asteroid_of_the_first_lane() {
    let spawned = Asteroid::spawn(0, 3, 0, 1);
    assert_eq!(spawned.position, Position { x: 1266, y: 46 });
    assert_eq!(spawned.velocity, ChangingFactor { x: 100, y: 0 });
}

#[test]
fn a_spawned_asteroid_stays_on_the_axes() {
    let spawned = Asteroid::spawn(usize::MAX, 255, i32::MAX, u32::MAX);
    assert_eq!(spawned.position, Position { x: i32::MAX, y: i32::MAX });
    assert_eq!(spawned.velocity, ChangingFactor { x: i32::MAX, y: 0 });
    assert_eq!(spawned.row, usize::MAX);
}

#[test]
fn the_shape_of_an_asteroid_is_a_square_of_its_pixels() {
    let shape = asteroid(500, 46, 0, 2).get_shape();
    let corners = shape.get_corners();
    assert_eq!(corners.top_left, Position { x: 478, y: 24 });
    assert_eq!(corners.bottom_right, Position { x: 522, y: 68 });
}

#[test]
fn a_new_asteroid_is_made_from_the_settings() {
    let mut rng = rand::thread_rng();
    for _ in 0..200 {
        let made = Asteroid::new(&mut rng, None, None);
        assert!(made.row < settings::ASTEROIDS_ROWS);
        assert!(is_fresh(&made));
    }
}

#[test]
fn a_new_asteroid_lies_in_the_lane_asked_for() {
    let mut rng = rand::thread_rng();
    for row in 0..settings::ASTEROIDS_ROWS {
        let made = Asteroid::new(&mut rng, Some(&empty_field()), Some(row));
        assert_eq!(made.row, row);
        assert!(is_fresh(&made));
    }
}

#[test]
fn new_asteroids_come_at_different_margins() {
    let mut rng = rand::thread_rng();
    let first = Asteroid::new(&mut rng, None, Some(0));
    let mut differs = false;
    for _ in 0..200 {
        if Asteroid::new(&mut rng, None, Some(0)).position.x != first.position.x {
            differs = true;
        }
    }
    assert!(differs);
}

#[test]
fn a_generated_asteroid_without_a_field_is_clear() {
    let mut rng = rand::thread_rng();
    let (made, clear) = Asteroid::generate(&mut rng, None, Some(4));
    assert!(clear);
    assert_eq!(made.row, 4);
    assert!(is_fresh(&made));
}

#[test]
fn a_generated_asteroid_that_is_clear_overlaps_none() {
    let mut rng = rand::thread_rng();
    let mut field = empty_field();
    for _ in 0..30 {
        let (made, clear) = Asteroid::generate(&mut rng, Some(&field), Some(2));
        assert!(is_fresh(&made));
        assert_eq!(clear, !made.is_inside(&field));
        if clear {
            for existing in field[2].iter() {
                assert!(!made.get_shape().over(existing.get_shape()));
            }
        }
        field[2].push(made);
    }
}

#[test]
fn a_generated_asteroid_in_a_full_strip_is_not_clear() {
    let mut rng = rand::thread_rng();
    let mut field = empty_field();
    // One asteroid so large that every placement of lane 0 has a corner in it.
    field[0].push(asteroid(1300, 46, 0, 255));
    let (made, clear) = Asteroid::generate(&mut rng, Some(&field), Some(0));
    assert!(!clear);
    assert!(made.is_inside(&field));
    assert!(is_fresh(&made));
}

#[test]
fn an_asteroid_inside_another() {
    let mut field = empty_field();
    // A square of 66 pixels: from 1267 to 1333, and from 478 to 544.
    field[5].push(asteroid(1300, 511, 5, 3));
    assert!(asteroid(1320, 511, 5, 2).is_inside(&field));
    assert!(asteroid(1320, 511, 0, 2).is_inside(&field));
    assert!(asteroid(1354, 511, 5, 2).is_inside(&field));
    assert!(!asteroid(1355, 511, 5, 2).is_inside(&field));
    assert!(!asteroid(1320, 604, 6, 2).is_inside(&field));
    assert!(!asteroid(1320, 511, 5, 2).is_inside(&empty_field()));
}

#[test]
fn asteroids_of_one_size_at_one_height_have_no_corner_inside_each_other() {
    let mut field = empty_field();
    field[5].push(asteroid(1300, 511, 5, 2));
    assert!(!asteroid(1320, 511, 5, 2).is_inside(&field));
    assert!(!asteroid(1300, 511, 5, 2).is_inside(&field));
}

#[test]
fn a_generated_asteroid_keeps_clear_of_a_larger_one() {
    let mut rng = rand::thread_rng();
    let mut field = empty_field();
    // A square from 1217 to 1283: a placement is clear of it from 1305 on.
    field[2].push(asteroid(1250, 232, 2, 3));
    for _ in 0..20 {
        let (made, clear) = Asteroid::generate(&mut rng, Some(&field), Some(2));
        assert!(clear);
        assert!(made.position.x >= 1305);
        assert!(!made.is_inside(&field));
        assert!(is_fresh(&made));
    }
}

#[test]
fn a_new_field_has_one_asteroid_in_every_lane() {
    let field = Asteroid::initialize_asteroids(9, 1, 1);
    assert_eq!(field.len(), 9);
    for (row, lane) in field.iter().enumerate() {
        assert_eq!(lane.len(), 1);
        assert_eq!(lane[0].row, row);
        assert!(is_fresh(&lane[0]));
    }
}

#[test]
fn a_new_field_has_a_count_of_the_range_in_every_lane() {
    let field = Asteroid::initialize_asteroids(4, 2, 5);
    assert_eq!(field.len(), 4);
    for (row, lane) in field.iter().enumerate() {
        assert!(2 <= lane.len() && lane.len() < 5);
        for made in lane.iter() {
            assert_eq!(made.row, row);
            assert!(is_fresh(made));
        }
    }
}

#[test]
fn a_new_field_of_an_empty_range_has_one_asteroid_in_every_lane() {
    let field = Asteroid::initialize_asteroids(3, 7, 2);
    assert_eq!(field.len(), 3);
    for lane in field.iter() {
        assert_eq!(lane.len(), 1);
    }
}

#[test]
fn a_new_field_without_lanes() {
    let field = Asteroid::initialize_asteroids(0, 1, 1);
    assert!(field.is_empty());
}

#[test]
fn an_asteroid_moves_left() {
    let mut moving = asteroid(1254, 325, 3, 2);
    moving.update_asteroid_position();
    assert_eq!(moving, asteroid(1251, 325, 3, 2));
}

#[test]
fn an_asteroid_moves_left_with_every_step_until_it_is_out_of_use() {
    let mut moving = asteroid(1254, 325, 3, 2);
    let mut steps = 0;
    while moving.is_used() {
        let before = moving.position.x;
        moving.update_asteroid_position();
        assert!(moving.position.x < before);
        assert_eq!(moving.position.y, 325);
        assert_eq!(moving.row, 3);
        steps += 1;
    }
    assert_eq!(steps, 418);
    assert_eq!(moving.position.x, 0);
}

#[test]
fn an_asteroid_without_size_leaves_the_axes() {
    let mut moving = asteroid(1254, 325, 3, 0);
    moving.update_asteroid_position();
    assert_eq!(moving.position, Position { x: i32::MIN, y: 0 });
    assert_eq!(moving.row, 3);
}

#[test]
fn an_asteroid_is_in_use_while_it_has_a_size_and_lies_right_of_the_edge() {
    assert!(asteroid(1, 46, 0, 1).is_used());
    assert!(!asteroid(0, 46, 0, 1).is_used());
    assert!(!asteroid(-5, 46, 0, 1).is_used());
    assert!(!asteroid(100, 46, 0, 0).is_used());
}

#[test]
fn a_field_moves_as_its_asteroids_move() {
    let mut field = empty_field();
    field[0].push(asteroid(1300, 46, 0, 2));
    field[0].push(asteroid(700, 46, 0, 3));
    field[4].push(asteroid(3, 418, 4, 2));
    Asteroid::update_asteroids_positions(&mut field);
    assert_eq!(field.len(), 9);
    assert_eq!(field[0], vec![asteroid(1297, 46, 0, 2), asteroid(697, 46, 0, 3)]);
    assert_eq!(field[4], vec![asteroid(0, 418, 4, 2)]);
    assert!(field[1].is_empty());
}

#[test]
fn a_lane_moves_as_its_asteroids_move() {
    let lane = advance_row(vec![asteroid(10, 46, 0, 2), asteroid(20, 46, 0, 2)]);
    assert_eq!(lane, vec![asteroid(7, 46, 0, 2), asteroid(17, 46, 0, 2)]);
}

#[test]
fn pruning_drops_what_is_out_of_use() {
    let mut field = empty_field();
    field[1].push(asteroid(0, 139, 1, 2));
    field[1].push(asteroid(500, 139, 1, 2));
    field[1].push(asteroid(600, 139, 1, 0));
    field[1].push(asteroid(700, 139, 1, 1));
    field[2].push(asteroid(-40, 232, 2, 2));
    Asteroid::unload_unused_asteroids(&mut field);
    assert_eq!(field.len(), 9);
    assert_eq!(field[1], vec![asteroid(500, 139, 1, 2), asteroid(700, 139, 1, 1)]);
    assert!(field[2].is_empty());
}

#[test]
fn pruning_a_lane_keeps_the_order() {
    let lane = used_row(vec![
        asteroid(30, 46, 0, 2),
        asteroid(0, 46, 0, 2),
        asteroid(10, 46, 0, 2),
        asteroid(20, 46, 0, 0),
        asteroid(20, 46, 0, 2),
    ]);
    assert_eq!(lane, vec![asteroid(30, 46, 0, 2), asteroid(10, 46, 0, 2), asteroid(20, 46, 0, 2)]);
}

#[test]
fn pruning_a_field_in_use_changes_nothing() {
    let mut field = empty_field();
    field[0].push(asteroid(1300, 46, 0, 2));
    field[3].push(asteroid(1, 325, 3, 1));
    field[8].push(asteroid(900, 790, 8, 3));
    let before = field.clone();
    Asteroid::unload_unused_asteroids(&mut field);
    assert_eq!(field, before);
}

#[test]
fn pruning_twice_is_pruning_once() {
    let mut field = empty_field();
    field[0].push(asteroid(0, 46, 0, 2));
    field[0].push(asteroid(50, 46, 0, 2));
    field[7].push(asteroid(50, 697, 7, 0));
    Asteroid::unload_unused_asteroids(&mut field);
    let once = field.clone();
    Asteroid::unload_unused_asteroids(&mut field);
    assert_eq!(field, once);
}

#[test]
fn mapping_a_field_maps_every_lane() {
    let mut field = empty_field();
    field[0].push(asteroid(1300, 46, 0, 2));
    field[1].push(asteroid(0, 139, 1, 2));
    let mapped = Asteroid::map_asteroids(field, |row| row.into_iter().rev().collect());
    assert_eq!(mapped.len(), 9);
    assert_eq!(mapped[0], vec![asteroid(1300, 46, 0, 2)]);
    assert_eq!(mapped[1], vec![asteroid(0, 139, 1, 2)]);
    let emptied = Asteroid::map_asteroids(mapped, |_| Vec::new());
    assert_eq!(emptied, empty_field());
}

#[test]
fn an_asteroid_appears_when_its_edge_passes_the_line() {
    // The left edge lies 22 left of the centre; the line lies at 1100.
    assert!(asteroid(1123, 46, 0, 2).is_appearing());
    assert!(asteroid(1125, 46, 0, 2).is_appearing());
    assert!(!asteroid(1126, 46, 0, 2).is_appearing());
    assert!(!asteroid(1122, 46, 0, 2).is_appearing());
    assert!(!asteroid(1300, 46, 0, 2).is_appearing());
}

#[test]
fn an_asteroid_without_size_appears_from_anywhere_behind_the_line() {
    assert!(asteroid(1150, 46, 0, 0).is_appearing());
    assert!(!asteroid(1200, 46, 0, 0).is_appearing());
    assert!(!asteroid(1100, 46, 0, 0).is_appearing());
}

#[test]
fn the_appearing_asteroids_are_counted() {
    let mut field = empty_field();
    assert_eq!(Asteroid::appearing_asteroids(&field), 0);
    field[0].push(asteroid(1123, 46, 0, 2));
    field[0].push(asteroid(1126, 46, 0, 2));
    field[0].push(asteroid(1300, 46, 0, 2));
    assert_eq!(Asteroid::appearing_asteroids(&field), 1);
    field[3].push(asteroid(1124, 325, 3, 2));
    field[8].push(asteroid(1125, 790, 8, 2));
    field[8].push(asteroid(20, 790, 8, 2));
    assert_eq!(Asteroid::appearing_asteroids(&field), 3);
}

#[test]
fn an_asteroid_passes_a_line_between_its_place_and_its_next() {
    // From 41 it is about to lie at 38.
    let passing = asteroid(41, 46, 0, 5);
    assert!(passing.is_crossing(40));
    assert!(passing.is_crossing(39));
    assert!(!passing.is_crossing(41));
    assert!(!passing.is_crossing(38));
    assert!(!passing.is_crossing(500));
}
