//! The football: launched from the side of the last score toward a
//! random free landing point, flying the shared arc, picked up by a
//! player standing close enough, and despawned on a touchdown or a
//! blade hit.

use vstd::prelude::*;
use crate::vec3::{V3, v3_fits, dist2};
use crate::collision::{Collidables, in_collidable};
use crate::arc::{arc_at, FLIGHT_TIME, FLIGHT_HEIGHT, arc_position};
use crate::game_state::GameState;
use crate::rng::{find_free_spot, free_spot_exists, SPAWN_MIN_X, SPAWN_MAX_X, SPAWN_MIN_Z, SPAWN_MAX_Z};
use crate::player::Player;

verus! {

/// Within this distance of a landed football, a player picks it up
/// (milli-units).
pub const FOOTBALL_PICKUP_DISTANCE: i64 = 1500;

/// A flying or landed football.
pub struct Football {
    pub has_landed: bool,
    pub target: V3,
    pub starting_position: V3,
    /// Milliseconds into the current flight.
    pub current_movement_time: i64,
}

/// Tag on the football mesh a carrying player shows.
pub struct CarriedFootball;

/// Ask for a fresh football launch.
pub struct LaunchFootballEvent;

/// Where the next football launches from: beside the goal the next
/// touchdown targets, so each trip crosses the field.
pub open spec fn launch_position(touchdown_on_leftside: bool) -> V3 {
    if touchdown_on_leftside {
        V3 { x: 6976i64, y: 0i64, z: -48_000i64 }
    } else {
        V3 { x: 6976i64, y: 0i64, z: 48_000i64 }
    }
}

/// Launch a football: spawn it at the side the scoring direction picks,
/// aim it at a random free landing point, and request the enemy wave if
/// this round has not spawned one yet.
pub fn handle_launch_football_event(gs: &mut GameState, cs: &Collidables) -> (r: (
    Football,
    bool,
))
    requires
        cs.wf(),
    ensures
        r.0.has_landed == false,
        r.0.current_movement_time == 0,
        r.0.starting_position == launch_position(old(gs).touchdown_on_leftside),
        SPAWN_MIN_X <= r.0.target.x <= SPAWN_MAX_X,
        SPAWN_MIN_Z <= r.0.target.z <= SPAWN_MAX_Z,
        r.0.target.y == 0,
        free_spot_exists(cs.statics@, cs.dynamics@) ==> !in_collidable(
            cs.statics@,
            cs.dynamics@,
            r.0.target,
        ),
        r.1 == !old(gs).enemies_spawned,
        final(gs).enemies_spawned == true,
        final(gs).score == old(gs).score,
        final(gs).touchdown_on_leftside == old(gs).touchdown_on_leftside,
        final(gs).attached_enemies == old(gs).attached_enemies,
        final(gs).maze_size == old(gs).maze_size,
        final(gs).current_round == old(gs).current_round,
        final(gs).death_count == old(gs).death_count,
        final(gs).corn_spawned == old(gs).corn_spawned,
{
    let position = if gs.touchdown_on_leftside {
        V3 { x: 6976, y: 0, z: -48_000 }
    } else {
        V3 { x: 6976, y: 0, z: 48_000 }
    };
    let target = find_free_spot(cs);
    let football = Football {
        has_landed: false,
        target,
        starting_position: position,
        current_movement_time: 0,
    };
    let spawn_enemies = !gs.enemies_spawned;
    gs.enemies_spawned = true;
    (football, spawn_enemies)
}

/// Fly the football one tick along the shared arc; when the flight time
/// runs out it lands exactly on its target.
pub fn move_football(football: &mut Football, pos: &mut V3, dt: i64)
    requires
        v3_fits(old(football).starting_position),
        v3_fits(old(football).target),
        0 <= old(football).current_movement_time <= FLIGHT_TIME,
        0 <= dt <= crate::fx::DT_LIMIT,
    ensures
        old(football).has_landed ==> *final(football) == *old(football) && *final(pos) == *old(
            pos,
        ),
        !old(football).has_landed && old(football).current_movement_time + dt < FLIGHT_TIME
            ==> *final(pos) == arc_at(
            old(football).starting_position,
            old(football).target,
            old(football).current_movement_time as int,
            FLIGHT_TIME as int,
            FLIGHT_HEIGHT as int,
        ) && final(football).current_movement_time == old(football).current_movement_time + dt
            && final(football).has_landed == false && final(football).target == old(
            football,
        ).target && final(football).starting_position == old(football).starting_position,
        !old(football).has_landed && old(football).current_movement_time + dt >= FLIGHT_TIME
            ==> *final(pos) == old(football).target && final(football).has_landed == true
            && final(football).current_movement_time == 0 && final(football).target == old(
            football,
        ).target && final(football).starting_position == old(football).starting_position,
{
    if football.has_landed {
        return ;
    }
    if football.current_movement_time + dt < FLIGHT_TIME {
        *pos = arc_position(
            football.starting_position,
            football.target,
            football.current_movement_time,
            FLIGHT_TIME,
            FLIGHT_HEIGHT,
        );
        football.current_movement_time = football.current_movement_time + dt;
    } else {
        *pos = football.target;
        football.current_movement_time = 0;
        football.has_landed = true;
    }
}

/// A player close enough to a landed football takes possession.
pub fn check_for_football_pickup(
    football: &Football,
    football_pos: &V3,
    player: &mut Player,
    player_pos: &V3,
) -> (picked: bool)
    requires
        v3_fits(*football_pos),
        v3_fits(*player_pos),
    ensures
        picked == (football.has_landed && dist2(*football_pos, *player_pos)
            < FOOTBALL_PICKUP_DISTANCE * FOOTBALL_PICKUP_DISTANCE),
        picked ==> final(player).has_football == true,
        !picked ==> *final(player) == *old(player),
        final(player).velocity == old(player).velocity,
        final(player).speed == old(player).speed,
        final(player).is_dead == old(player).is_dead,
        final(player).dead_cooldown == old(player).dead_cooldown,
        final(player).random == old(player).random,
        final(player).friction == old(player).friction,
        final(player).rotation_speed == old(player).rotation_speed,
{
    let d2 = football_pos.dist2_u64(player_pos);
    if football.has_landed && d2 < (FOOTBALL_PICKUP_DISTANCE * FOOTBALL_PICKUP_DISTANCE) as u64 {
        player.has_football = true;
        true
    } else {
        false
    }
}

} // verus!
