use corn_maze::collision::{
    Collidables, DynamicCollidable, QuarterTurn, WorldAabb, RIGHT_GOAL,
};
use corn_maze::combine::{
    blade_hits_enemy, blade_hits_football, blade_hits_player, detect_blade_collisions,
    handle_corn_collision, harvest_corn, Combine, CombineBlade, Heading,
};
use corn_maze::enemy::{
    handle_enemy_blade_event, handle_spawn_enemies_event, move_enemy, scale_lines_of_sight, Enemy,
    EnemyLineOfSight,
};
use corn_maze::football::{check_for_football_pickup, handle_launch_football_event, Football};
use corn_maze::game_state::GameState;
use corn_maze::maze::{corn_collidable, shrink_corn, spawn_corn, CornStalk, MazeMarker, ShrinkCorn};
use corn_maze::player::{check_for_touchdown, handle_player_blade_event, move_player, Movement, Player};
use corn_maze::kinematics::integrate_velocity;
use corn_maze::rng::{find_free_spot, SPAWN_MAX_X, SPAWN_MAX_Z, SPAWN_MIN_X, SPAWN_MIN_Z};
use corn_maze::vec3::V3;

fn corn_at(x: i64, z: i64) -> CornStalk {
    CornStalk { is_harvested: false, position: V3 { x, y: 0, z }, random: 300 }
}

fn blade_at(x: i64, z: i64) -> CombineBlade {
    CombineBlade {
        volume: DynamicCollidable {
            local: WorldAabb {
                min: V3 { x: -1000, y: 0, z: -1000 },
                max: V3 { x: 1000, y: 0, z: 1000 },
            },
            position: V3 { x, y: 0, z },
            turn: QuarterTurn::Turn0,
        },
    }
}

// Touchdown toggling: carrying the ball over the right goal with the
// left side inactive scores a hundred, flips the side, and the next
// launch starts from the left end of the field.
#[test]
fn touchdown_scores_flips_and_relaunches_left() {
    let mut gs = GameState::default();
    assert!(!gs.touchdown_on_leftside);
    let mut player = Player::new();
    player.has_football = true;
    let pos = V3 { x: 0, y: 0, z: RIGHT_GOAL };
    let td = check_for_touchdown(&mut player, &pos, &gs);
    assert!(td.is_some());
    assert!(!player.has_football);
    let _launch = gs.handle_touchdown();
    assert_eq!(gs.score, 100);
    assert!(gs.touchdown_on_leftside);
    let cs = Collidables::new();
    let (fb, spawn) = handle_launch_football_event(&mut gs, &cs);
    assert_eq!(fb.starting_position.z, -48_000);
    assert_eq!(fb.starting_position.x, 6_976);
    assert!(!fb.has_landed);
    assert!(spawn);
    assert!(gs.enemies_spawned);
}

#[test]
fn no_touchdown_without_the_football_or_on_the_wrong_side() {
    let gs = GameState::default();
    let mut player = Player::new();
    let pos = V3 { x: 0, y: 0, z: RIGHT_GOAL };
    assert!(check_for_touchdown(&mut player, &pos, &gs).is_none());
    player.has_football = true;
    let near = V3 { x: 0, y: 0, z: RIGHT_GOAL - 1 };
    assert!(check_for_touchdown(&mut player, &near, &gs).is_none());
    assert!(player.has_football);
}

// Combine row completion: heading left past the maze half-width with no
// corn standing signals the round is over and assigns no new target.
#[test]
fn combine_row_completion_with_no_corn_signals_round_over() {
    let mut combine = Combine::default();
    combine.target_x_coordinate = 12_345;
    let mut pos = V3 { x: 0, y: 0, z: -40_001 };
    let mut harvested = corn_at(0, 0);
    harvested.is_harvested = true;
    let corn = vec![harvested];
    let over = harvest_corn(&mut combine, &mut pos, &corn, 80_000, 16, 926);
    assert!(over);
    assert_eq!(combine.target_x_coordinate, 12_345);
    assert_eq!(combine.heading, Heading::Left);
    assert_eq!(combine.current_rotation_time, 16);
    assert_eq!(combine.velocity.z, 0);
}

#[test]
fn combine_row_end_turns_toward_a_standing_stalk() {
    let mut combine = Combine::default();
    let mut pos = V3 { x: 0, y: 0, z: -40_001 };
    let corn = vec![corn_at(9_000, 500)];
    let over = harvest_corn(&mut combine, &mut pos, &corn, 80_000, 16, 926);
    assert!(!over);
    assert_eq!(combine.target_x_coordinate, 9_000);
    assert_eq!(combine.heading, Heading::Up);
    assert_eq!(combine.target_rotation, QuarterTurn::Turn0);
    assert_eq!(combine.current_rotation_time, 16);
}

#[test]
fn combine_mid_row_only_drives() {
    let mut combine = Combine::default();
    combine.current_rotation_time = 3000;
    combine.velocity = V3 { x: 0, y: 0, z: -10_000 };
    let mut pos = V3 { x: 0, y: 0, z: 0 };
    let corn = vec![corn_at(9_000, 500)];
    let over = harvest_corn(&mut combine, &mut pos, &corn, 80_000, 1000, 1000);
    assert!(!over);
    assert_eq!(combine.heading, Heading::Left);
    // Full second at friction one: decayed velocity plus a second of
    // acceleration along -Z would reach forty units per second, which
    // the speed clamp cuts back to the combine's thirty; then the move.
    assert_eq!(combine.velocity.z, -30_000);
    assert_eq!(pos.z, -30_000);
    let v = combine.velocity;
    let len2 = v.x as i128 * v.x as i128 + v.y as i128 * v.y as i128 + v.z as i128 * v.z as i128;
    assert!(len2 <= (combine.speed as i128) * (combine.speed as i128));
}

#[test]
fn combine_turn_window_holds_still() {
    let mut combine = Combine::default();
    combine.current_rotation_time = 0;
    combine.velocity = V3 { x: 0, y: 0, z: -10_000 };
    let mut pos = V3 { x: 0, y: 0, z: 0 };
    let corn = vec![corn_at(9_000, 500)];
    harvest_corn(&mut combine, &mut pos, &corn, 80_000, 500, 926);
    assert_eq!(pos, V3 { x: 0, y: 0, z: 0 });
    assert_eq!(combine.current_rotation_time, 500);
}

// Harvest idempotence: the blade cuts a standing stalk exactly once;
// an already-harvested stalk never re-triggers the cut.
#[test]
fn harvest_cuts_each_stalk_exactly_once() {
    let blade = blade_at(5_000, 5_000);
    let mut corn = vec![corn_at(5_200, 4_900), corn_at(30_000, 30_000)];
    let cut = handle_corn_collision(&blade, &mut corn);
    assert_eq!(cut, vec![0]);
    assert!(corn[0].is_harvested);
    assert!(!corn[1].is_harvested);
    let again = handle_corn_collision(&blade, &mut corn);
    assert!(again.is_empty());
    assert!(corn[0].is_harvested);
    assert!(!corn[1].is_harvested);
}

#[test]
fn blade_sweep_reports_each_contact_once() {
    let blade = blade_at(0, 0);
    let origin = V3 { x: 0, y: 0, z: 0 };
    let far = V3 { x: 20_000, y: 0, z: 20_000 };
    let player = Player::new();
    let mut launched = Enemy::new(1);
    launched.is_launched = true;
    let enemies = vec![
        (Enemy::new(0), origin),
        (launched, origin),
        (Enemy::new(2), far),
        (Enemy::new(3), V3 { x: 500, y: 0, z: -500 }),
    ];
    let mut fb = Football {
        has_landed: true,
        target: origin,
        starting_position: origin,
        current_movement_time: 0,
    };
    let (player_hit, enemy_hits, football_hit) =
        detect_blade_collisions(&blade, &player, &origin, &enemies, &fb, &origin);
    assert!(player_hit);
    assert_eq!(enemy_hits, vec![0, 3]);
    assert!(football_hit);
    fb.has_landed = false;
    let (_, _, fh2) = detect_blade_collisions(&blade, &player, &far, &enemies, &fb, &origin);
    assert!(!fh2);
}

#[test]
fn blade_contact_skips_dead_launched_and_flying() {
    let blade = blade_at(0, 0);
    let origin = V3 { x: 0, y: 0, z: 0 };
    let mut player = Player::new();
    assert!(blade_hits_player(&blade, &player, &origin));
    player.is_dead = true;
    assert!(!blade_hits_player(&blade, &player, &origin));
    let mut enemy = Enemy::new(0);
    assert!(blade_hits_enemy(&blade, &enemy, &origin));
    enemy.is_launched = true;
    assert!(!blade_hits_enemy(&blade, &enemy, &origin));
    let mut fb = Football {
        has_landed: false,
        target: origin,
        starting_position: origin,
        current_movement_time: 0,
    };
    assert!(!blade_hits_football(&blade, &fb, &origin));
    fb.has_landed = true;
    assert!(blade_hits_football(&blade, &fb, &origin));
}

// Enemy dive then attach: inside three units a pursuing enemy commits
// to a dive at half its speed; inside three quarters of a unit the
// diving enemy attaches and bumps the attached count by exactly one.
#[test]
fn enemy_dives_at_half_speed_then_attaches() {
    let cs = Collidables::new();
    let mut enemy = Enemy::new(0);
    enemy.can_see_player = true;
    let mut pos = V3 { x: 0, y: 0, z: 0 };
    let player_pos = V3 { x: 2_000, y: 0, z: 0 };
    let mut attached: usize = 0;
    let ev = move_enemy(&mut enemy, &mut pos, &player_pos, &mut attached, &cs, 16, 926);
    assert!(ev.dived);
    assert!(!ev.attached);
    assert!(enemy.has_dived);
    // Direction is a clean +X axis: the dive velocity is exactly half
    // the max speed of forty-two units per second.
    assert_eq!(enemy.velocity, V3 { x: 21_000, y: 0, z: 0 });
    assert_eq!(attached, 0);

    // Now close inside attach range.
    let near_player = V3 { x: pos.x + 500, y: pos.y, z: pos.z };
    let ev2 = move_enemy(&mut enemy, &mut pos, &near_player, &mut attached, &cs, 16, 926);
    assert!(ev2.attached);
    assert!(!ev2.dived);
    assert!(enemy.is_attached);
    assert!(!enemy.has_dived);
    assert_eq!(attached, 1);
    assert_eq!(pos, near_player);
}

#[test]
fn attached_enemy_rides_the_player() {
    let cs = Collidables::new();
    let mut enemy = Enemy::new(0);
    enemy.is_attached = true;
    let mut pos = V3 { x: 9_000, y: 0, z: 9_000 };
    let player_pos = V3 { x: 1_000, y: 0, z: 2_000 };
    let mut attached: usize = 1;
    let ev = move_enemy(&mut enemy, &mut pos, &player_pos, &mut attached, &cs, 16, 926);
    assert!(!ev.attached);
    assert_eq!(pos, player_pos);
    assert_eq!(attached, 1);
}

#[test]
fn launched_enemy_is_skipped_by_the_mover() {
    let cs = Collidables::new();
    let mut enemy = Enemy::new(0);
    enemy.is_launched = true;
    let mut pos = V3 { x: 5_000, y: 0, z: 5_000 };
    let mut attached: usize = 0;
    let before = pos;
    let ev = move_enemy(
        &mut enemy,
        &mut pos,
        &V3 { x: 0, y: 0, z: 0 },
        &mut attached,
        &cs,
        16,
        926,
    );
    assert!(!ev.attached && !ev.dived);
    assert_eq!(pos, before);
}

#[test]
fn blade_event_launches_toward_a_free_spot() {
    let cs = Collidables::new();
    let mut enemy = Enemy::new(0);
    let pos = V3 { x: 1_000, y: 0, z: 1_000 };
    handle_enemy_blade_event(&mut enemy, &pos, &cs);
    assert!(enemy.is_launched);
    assert_eq!(enemy.launch_starting_position, pos);
    assert_eq!(enemy.current_flying_time, 0);
    let t = enemy.landing_target;
    assert!(t.x >= SPAWN_MIN_X && t.x <= SPAWN_MAX_X);
    assert!(t.z >= SPAWN_MIN_Z && t.z <= SPAWN_MAX_Z);
    assert!(!cs.is_in_collidable(&t));
}

#[test]
fn spawn_counts_follow_the_round() {
    let cs = Collidables::new();
    let wave1 = handle_spawn_enemies_event(&cs, 1, 100);
    assert_eq!(wave1.len(), 5);
    for (k, (e, p)) in wave1.iter().enumerate() {
        assert_eq!(e.line_of_sight, 100 + k);
        assert!(p.x >= SPAWN_MIN_X && p.x <= SPAWN_MAX_X);
        assert!(p.z >= SPAWN_MIN_Z && p.z <= SPAWN_MAX_Z);
    }
    let wave2 = handle_spawn_enemies_event(&cs, 2, 0);
    assert_eq!(wave2.len(), 3);
}

#[test]
fn free_spot_sampling_stays_inside_the_rectangle() {
    let cs = Collidables::new();
    for _ in 0..32 {
        let p = find_free_spot(&cs);
        assert!(p.x >= SPAWN_MIN_X && p.x < SPAWN_MAX_X);
        assert!(p.z >= SPAWN_MIN_Z && p.z < SPAWN_MAX_Z);
        assert_eq!(p.y, 0);
        assert!(!cs.is_in_collidable(&p));
    }
}

#[test]
fn probe_sees_the_player_only_past_the_nearest_corn() {
    let mut enemy = Enemy::new(0);
    let enemy_pos = V3 { x: 0, y: 0, z: 0 };
    let facing = V3 { x: 1000, y: 0, z: 0 };
    // Last tick's probe spans the full reach along +X.
    let mut probe = EnemyLineOfSight {
        position: V3 { x: 12_500, y: 1000, z: 0 },
        facing,
        half_length: 12_500,
    };
    // A stalk five units ahead truncates sight; the player is eight
    // units ahead, behind the corn: not seen.
    let corn = vec![corn_at(5_000, 0)];
    let player_far = V3 { x: 8_000, y: 0, z: 0 };
    scale_lines_of_sight(&mut enemy, &enemy_pos, &facing, &mut probe, &corn, &player_far);
    assert!(!enemy.can_see_player);
    // The probe now spans enemy to the corn.
    assert_eq!(probe.position, V3 { x: 2_500, y: 1000, z: 0 });
    assert_eq!(probe.half_length, 2_500);

    // With the corn harvested the sight line runs its full reach and
    // the player inside the old probe is seen.
    let mut probe2 = EnemyLineOfSight {
        position: V3 { x: 12_500, y: 1000, z: 0 },
        facing,
        half_length: 12_500,
    };
    let mut cut = corn;
    cut[0].is_harvested = true;
    scale_lines_of_sight(&mut enemy, &enemy_pos, &facing, &mut probe2, &cut, &player_far);
    assert!(enemy.can_see_player);
    assert_eq!(probe2.position, V3 { x: 12_500, y: 1000, z: 0 });
    assert_eq!(probe2.half_length, 12_500);
}

#[test]
fn probe_does_not_see_a_player_off_axis() {
    let mut enemy = Enemy::new(0);
    let enemy_pos = V3 { x: 0, y: 0, z: 0 };
    let facing = V3 { x: 1000, y: 0, z: 0 };
    let mut probe = EnemyLineOfSight {
        position: V3 { x: 12_500, y: 1000, z: 0 },
        facing,
        half_length: 12_500,
    };
    // Two units to the side: outside the probe's half-width.
    let player = V3 { x: 8_000, y: 0, z: 2_000 };
    scale_lines_of_sight(&mut enemy, &enemy_pos, &facing, &mut probe, &vec![], &player);
    assert!(!enemy.can_see_player);
}

#[test]
fn player_death_cooldown_counts_down_to_a_respawn() {
    let cs = Collidables::new();
    let mut gs = GameState::default();
    let mut player = Player::new();
    handle_player_blade_event(&mut player);
    assert!(player.is_dead);
    assert_eq!(player.dead_cooldown, 1200);
    let mut pos = V3 { x: 0, y: 0, z: 0 };
    let died = move_player(&mut player, &mut pos, None, &mut gs, &cs, 700, 926);
    assert!(!died);
    assert_eq!(player.dead_cooldown, 500);
    assert_eq!(gs.death_count, 0);
    let died2 = move_player(&mut player, &mut pos, None, &mut gs, &cs, 700, 926);
    assert!(died2);
    assert!(!player.is_dead);
    assert_eq!(gs.death_count, 1);
}

#[test]
fn player_accelerates_along_quantized_input() {
    let cs = Collidables::new();
    let mut gs = GameState::default();
    let mut player = Player::new();
    let mut pos = V3 { x: 0, y: 0, z: 0 };
    // A friction-free quarter second along a raw diagonal whose Z leg
    // sits inside the dead zone.
    let input = Some(Movement::Normal(V3 { x: 5_000, y: 0, z: 50 }));
    let died = move_player(&mut player, &mut pos, input, &mut gs, &cs, 250, 1000);
    assert!(!died);
    assert_eq!(player.velocity, V3 { x: 10_000, y: 0, z: 0 });
    assert_eq!(pos, V3 { x: 2_500, y: 0, z: 0 });
}

#[test]
fn attached_enemies_slow_the_player_down() {
    let cs = Collidables::new();
    let mut gs = GameState::default();
    gs.attached_enemies = 2;
    let mut player = Player::new();
    let mut pos = V3 { x: 0, y: 0, z: 0 };
    let input = Some(Movement::Normal(V3 { x: 5_000, y: 0, z: 0 }));
    move_player(&mut player, &mut pos, input, &mut gs, &cs, 250, 1000);
    // Two riders cost a fifth of the base speed of forty: a quarter
    // second accelerates by eight units per second instead of ten.
    assert_eq!(player.velocity, V3 { x: 8_000, y: 0, z: 0 });
}

#[test]
fn velocity_never_exceeds_the_speed_cap() {
    // The clamp invariant on a diagonal input held over many ticks.
    let cs = Collidables::new();
    let mut gs = GameState::default();
    let mut player = Player::new();
    let mut pos = V3 { x: 0, y: 0, z: 0 };
    for _ in 0..120 {
        let input = Some(Movement::Normal(V3 { x: 5_000, y: 0, z: 5_000 }));
        move_player(&mut player, &mut pos, input, &mut gs, &cs, 16, 926);
        let v = player.velocity;
        let len2 = v.x as i128 * v.x as i128 + v.y as i128 * v.y as i128 + v.z as i128
            * v.z as i128;
        assert!(len2 <= (player.speed as i128) * (player.speed as i128));
    }
}

#[test]
fn football_pickup_within_a_unit_and_a_half_once_landed() {
    let mut player = Player::new();
    let fb_pos = V3 { x: 0, y: 0, z: 0 };
    let mut fb = Football {
        has_landed: false,
        target: fb_pos,
        starting_position: fb_pos,
        current_movement_time: 0,
    };
    let nearer = V3 { x: 1_000, y: 0, z: 500 };
    // Still in flight: no possession however close.
    assert!(!check_for_football_pickup(&fb, &fb_pos, &mut player, &nearer));
    assert!(!player.has_football);
    fb.has_landed = true;
    let near = V3 { x: 1_100, y: 0, z: 1_100 };
    assert!(!check_for_football_pickup(&fb, &fb_pos, &mut player, &near));
    assert!(!player.has_football);
    assert!(check_for_football_pickup(&fb, &fb_pos, &mut player, &nearer));
    assert!(player.has_football);
}

#[test]
fn corn_grid_covers_the_plane() {
    let plane = MazeMarker {
        spawned: false,
        aabb: WorldAabb {
            min: V3 { x: 0, y: 0, z: 0 },
            max: V3 { x: 3_000, y: 0, z: 2_000 },
        },
    };
    let corn = spawn_corn(&plane);
    assert_eq!(corn.len(), 6);
    assert_eq!(corn[0].position, V3 { x: 500, y: 0, z: 500 });
    assert_eq!(corn[1].position, V3 { x: 500, y: 0, z: 1_500 });
    assert_eq!(corn[5].position, V3 { x: 2_500, y: 0, z: 1_500 });
    for stalk in corn.iter() {
        assert!(!stalk.is_harvested);
        assert!(stalk.random >= 200 && stalk.random < 500);
        let c = corn_collidable(stalk);
        assert_eq!(c.aabb.min.x, stalk.position.x - 800);
        assert_eq!(c.aabb.max.z, stalk.position.z + 800);
    }
}

// The velocity clamp invariant on the shared integrator itself: after
// one integration step the speed cap always holds, and an in-cap step
// is exact.
#[test]
fn integrator_clamps_to_the_speed_cap() {
    let over = V3 { x: 90_000, y: 0, z: -90_000 };
    let dir = V3 { x: 1000, y: 0, z: 0 };
    let v = integrate_velocity(over, dir, 40_000, 1000, 1000);
    let len2 = v.x as i128 * v.x as i128 + v.y as i128 * v.y as i128 + v.z as i128 * v.z as i128;
    assert!(len2 <= 40_000i128 * 40_000i128);
    // A slow actor accelerating along one axis lands exactly on the
    // friction-decayed, accelerated value.
    let slow = V3 { x: 1_000, y: 0, z: 0 };
    let v2 = integrate_velocity(slow, dir, 40_000, 500, 16);
    assert_eq!(v2, V3 { x: 500 + 640, y: 0, z: 0 });
}

#[test]
fn zero_signum_quantizes_with_a_dead_zone() {
    let v = V3 { x: 99, y: -100, z: 4_321 };
    let q = v.zero_signum();
    assert_eq!(q, V3 { x: 0, y: -1000, z: 1000 });
    let w = V3 { x: 100, y: -99, z: 0 };
    assert_eq!(w.zero_signum(), V3 { x: 1000, y: 0, z: 0 });
}

#[test]
fn zero_signum_is_idempotent() {
    // A quantized vector lies outside the dead zone and is a fixed
    // point of the quantization.
    let v = V3 { x: 5_000, y: -250, z: 30 };
    let q = v.zero_signum();
    assert_eq!(q.zero_signum(), q);
    assert_eq!(q, V3 { x: 1000, y: -1000, z: 0 });
}

// Impenetrability and containment, exercised through the whole player
// pipeline: many ticks of driving into a corn wall never leave the
// player strictly inside a stalk's box nor outside the field.
#[test]
fn player_never_ends_up_inside_corn() {
    let plane = MazeMarker {
        spawned: false,
        aabb: WorldAabb {
            min: V3 { x: -3_000, y: 0, z: 2_000 },
            max: V3 { x: 3_000, y: 0, z: 5_000 },
        },
    };
    let corn = spawn_corn(&plane);
    let mut statics = Vec::new();
    for stalk in corn.iter() {
        statics.push(corn_collidable(stalk));
    }
    let cs = Collidables { statics, dynamics: Vec::new() };
    let mut gs = GameState::default();
    let mut player = Player::new();
    let mut pos = V3 { x: 0, y: 0, z: 0 };
    for _ in 0..240 {
        let input = Some(Movement::Normal(V3 { x: 0, y: 0, z: 5_000 }));
        move_player(&mut player, &mut pos, input, &mut gs, &cs, 16, 926);
        for c in cs.statics.iter() {
            let strictly_inside = pos.x > c.aabb.min.x && pos.x < c.aabb.max.x && pos.z
                > c.aabb.min.z && pos.z < c.aabb.max.z;
            assert!(!strictly_inside, "player inside a stalk at {:?}", pos);
        }
        assert!(pos.z > corn_maze::collision::LEFT_END && pos.z < corn_maze::collision::RIGHT_END);
        assert!(
            pos.x > corn_maze::collision::BOTTOM_END && pos.x < corn_maze::collision::TOP_END
        );
    }
}

#[test]
fn cut_corn_shrinks_for_two_seconds_and_stops_at_zero() {
    let mut s = ShrinkCorn::new(V3 { x: 0, y: 0, z: -1000 });
    assert_eq!(s.shrink_time, 2000);
    assert!(!shrink_corn(&mut s, 1500));
    assert_eq!(s.shrink_time, 500);
    assert!(shrink_corn(&mut s, 800));
    // The timer floors at zero instead of running away negative.
    assert_eq!(s.shrink_time, 0);
    assert!(shrink_corn(&mut s, 16));
    assert_eq!(s.shrink_time, 0);
    assert_eq!(s.direction, V3 { x: 0, y: 0, z: -1000 });
}

#[test]
fn game_state_defaults_match_initialization() {
    let gs = GameState::default();
    assert_eq!(gs.maze_size, 80_000);
    assert_eq!(gs.score, 0);
    assert!(!gs.touchdown_on_leftside);
    assert_eq!(gs.attached_enemies, 0);
    assert_eq!(gs.title_screen_cooldown, 1000);
    let gi = GameState::initialize(false, true, false);
    assert!(!gi.graphics_high);
    assert!(gi.shadows_on);
    assert!(!gi.is_latest);
}

#[test]
fn default_actors_carry_the_latest_revision_constants() {
    let p = Player::new();
    assert_eq!(p.speed, 40_000);
    assert_eq!(p.friction, 10);
    assert!(p.random >= 500 && p.random < 1000);
    let e = Enemy::new(3);
    assert_eq!(e.speed, 42_000);
    assert_eq!(e.line_of_sight, 3);
    assert_eq!(e.effective_friction(), 10);
    let mut diving = Enemy::new(4);
    diving.has_dived = true;
    assert_eq!(diving.effective_friction(), 110);
    let c = Combine::default();
    assert_eq!(c.speed, 30_000);
    assert_eq!(c.heading, Heading::Left);
    assert_eq!(Heading::default(), Heading::Left);
}
