use corn_maze::arc::{arc_position, FLIGHT_HEIGHT, FLIGHT_TIME};
use corn_maze::enemy::Enemy;
use corn_maze::football::{move_football, Football};
use corn_maze::vec3::V3;

#[test]
fn arc_starts_exactly_at_start() {
    let start = V3 { x: 6976, y: 0, z: -48_000 };
    let target = V3 { x: 3_000, y: 0, z: 9_000 };
    let p = arc_position(start, target, 0, FLIGHT_TIME, FLIGHT_HEIGHT);
    assert_eq!(p, start);
}

#[test]
fn arc_lands_exactly_on_target() {
    let start = V3 { x: 6976, y: 0, z: -48_000 };
    let target = V3 { x: 3_000, y: 0, z: 9_000 };
    let p = arc_position(start, target, FLIGHT_TIME, FLIGHT_TIME, FLIGHT_HEIGHT);
    assert_eq!(p, target);
}

#[test]
fn arc_midpoint_sits_at_flight_height_when_started_there() {
    let start = V3 { x: -4_000, y: FLIGHT_HEIGHT, z: 10_000 };
    let target = V3 { x: 8_000, y: 0, z: -2_000 };
    let p = arc_position(start, target, FLIGHT_TIME / 2, FLIGHT_TIME, FLIGHT_HEIGHT);
    assert_eq!(p.y, FLIGHT_HEIGHT);
    assert_eq!(p.x, (start.x + target.x) / 2);
    assert_eq!(p.z, (start.z + target.z) / 2);
}

#[test]
fn arc_rises_toward_height_from_ground_start() {
    let start = V3 { x: 0, y: 0, z: 0 };
    let target = V3 { x: 0, y: 0, z: 10_000 };
    let p = arc_position(start, target, FLIGHT_TIME / 2, FLIGHT_TIME, FLIGHT_HEIGHT);
    // Half way toward the peak's interpolation target.
    assert_eq!(p.y, FLIGHT_HEIGHT / 2);
    assert_eq!(p.z, 5_000);
}

#[test]
fn football_flight_lands_exactly_on_target() {
    let mut fb = Football {
        has_landed: false,
        target: V3 { x: 1_000, y: 0, z: 2_000 },
        starting_position: V3 { x: 6976, y: 0, z: 48_000 },
        current_movement_time: 0,
    };
    let mut pos = fb.starting_position;
    let mut ticks = 0;
    while !fb.has_landed {
        move_football(&mut fb, &mut pos, 160);
        ticks += 1;
        assert!(ticks <= 20);
    }
    assert_eq!(pos, V3 { x: 1_000, y: 0, z: 2_000 });
    assert_eq!(fb.current_movement_time, 0);
}

#[test]
fn landed_football_stays_put() {
    let mut fb = Football {
        has_landed: true,
        target: V3 { x: 1_000, y: 0, z: 2_000 },
        starting_position: V3 { x: 0, y: 0, z: 0 },
        current_movement_time: 0,
    };
    let mut pos = V3 { x: 1_000, y: 0, z: 2_000 };
    move_football(&mut fb, &mut pos, 16);
    assert!(fb.has_landed);
    assert_eq!(pos, V3 { x: 1_000, y: 0, z: 2_000 });
}

#[test]
fn launched_enemy_lands_grounded_on_its_target() {
    let mut e = Enemy::new(7);
    e.is_launched = true;
    e.launch_starting_position = V3 { x: 0, y: 0, z: 0 };
    e.landing_target = V3 { x: 4_000, y: 0, z: -6_000 };
    let mut pos = V3 { x: 0, y: 0, z: 0 };
    let mut guard = 0;
    while e.is_launched {
        corn_maze::enemy::handle_flying_enemies(&mut e, &mut pos, 100);
        guard += 1;
        assert!(guard <= 30);
    }
    assert_eq!(pos, V3 { x: 4_000, y: 0, z: -6_000 });
    assert_eq!(e.current_flying_time, 0);
}

#[test]
fn flying_enemy_rises_through_the_arc() {
    let mut e = Enemy::new(1);
    e.is_launched = true;
    e.launch_starting_position = V3 { x: 0, y: 0, z: 0 };
    e.landing_target = V3 { x: 0, y: 0, z: 8_000 };
    e.current_flying_time = 500;
    let mut pos = V3 { x: 0, y: 0, z: 0 };
    corn_maze::enemy::handle_flying_enemies(&mut e, &mut pos, 100);
    // A quarter of the way: a quarter toward the peak and the target's Z.
    assert_eq!(pos.y, FLIGHT_HEIGHT / 4);
    assert_eq!(pos.z, 2_000);
    assert_eq!(e.current_flying_time, 600);
}
