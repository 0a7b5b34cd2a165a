//! The player controller: input-driven acceleration through the shared
//! kinematics and collision resolver, the death/respawn cooldown, the
//! attached-enemy slowdown, and touchdown detection.

use vstd::prelude::*;
use crate::fx::{tdiv, abs_i, div_trunc, clamp64, min_i, max_i, SPEED_LIMIT, DT_LIMIT};
use crate::vec3::{V3, v3_fits, len2, signum_dead};
use crate::kinematics::{
    decay, accelerated, clamped, decay_velocity, accelerate, clamp_speed, moved, advance,
};
use crate::collision::{Collidables, fit_in_spec, LEFT_GOAL, RIGHT_GOAL};
use crate::game_state::{GameState, TouchdownEvent};
use crate::rng::random_unit_scalar;

verus! {

/// Milliseconds a dead player stays down before respawning.
pub const DEAD_COOLDOWN: i64 = 1200;

pub struct Player {
    pub velocity: V3,
    /// Max speed, milli-units per second.
    pub speed: i64,
    pub rotation_speed: i64,
    /// Friction base, milli-units (raised to the elapsed time by the
    /// caller to produce each tick's decay factor).
    pub friction: i64,
    pub is_dead: bool,
    /// Milliseconds of death cooldown left.
    pub dead_cooldown: i64,
    /// Per-instance timing scalar, milli-units.
    pub random: i64,
    pub has_football: bool,
}

/// The blade (or an enemy, depending on the revision) killed the player.
pub struct PlayerBladeEvent;

/// A tick's movement intent: a raw steering vector, quantized by the
/// controller before it accelerates.
pub enum Movement {
    Normal(V3),
}

impl Player {
    pub fn new() -> (r: Player)
        ensures
            r.velocity == (V3 { x: 0i64, y: 0i64, z: 0i64 }),
            r.speed == 40_000,
            r.rotation_speed == 1000,
            r.is_dead == false,
            r.dead_cooldown == 0,
            r.friction == 10,
            500 <= r.random < 1000,
            r.has_football == false,
    {
        Player {
            velocity: V3 { x: 0, y: 0, z: 0 },
            speed: 40_000,
            rotation_speed: 1000,
            is_dead: false,
            dead_cooldown: 0,
            friction: 10,
            random: random_unit_scalar(),
            has_football: false,
        }
    }
}

/// The blade killed the player: down for the cooldown, then a respawn.
pub fn handle_player_blade_event(player: &mut Player)
    ensures
        final(player).is_dead == true,
        final(player).dead_cooldown == DEAD_COOLDOWN,
        final(player).velocity == old(player).velocity,
        final(player).speed == old(player).speed,
        final(player).rotation_speed == old(player).rotation_speed,
        final(player).friction == old(player).friction,
        final(player).random == old(player).random,
        final(player).has_football == old(player).has_football,
{
    player.is_dead = true;
    player.dead_cooldown = DEAD_COOLDOWN;
}

/// A carrying player past the live goal line scores: possession drops
/// and a touchdown event fires, exactly when the player carries the
/// football across the goal the current scoring direction points at.
pub fn check_for_touchdown(player: &mut Player, pos: &V3, gs: &GameState) -> (td: Option<
    TouchdownEvent,
>)
    ensures
        td.is_some() == (old(player).has_football && ((gs.touchdown_on_leftside && pos.z
            <= LEFT_GOAL) || (!gs.touchdown_on_leftside && pos.z >= RIGHT_GOAL))),
        td.is_some() ==> final(player).has_football == false,
        td.is_none() ==> *final(player) == *old(player),
        final(player).velocity == old(player).velocity,
        final(player).speed == old(player).speed,
        final(player).is_dead == old(player).is_dead,
        final(player).dead_cooldown == old(player).dead_cooldown,
        final(player).random == old(player).random,
        final(player).friction == old(player).friction,
        final(player).rotation_speed == old(player).rotation_speed,
{
    if player.has_football && ((gs.touchdown_on_leftside && pos.z <= LEFT_GOAL)
        || (!gs.touchdown_on_leftside && pos.z >= RIGHT_GOAL)) {
        player.has_football = false;
        Some(TouchdownEvent)
    } else {
        None
    }
}

/// The speed the player accelerates at: the base speed less a tenth of
/// it per attached enemy.
pub open spec fn slowed_speed(speed: int, attached: int) -> int {
    speed - tdiv(speed * attached, 10)
}

/// Move the player one tick. A dead player only counts down the respawn
/// cooldown and reports when it expires (incrementing the death count);
/// a live player decays by friction, accelerates along the quantized
/// input direction at the attached-enemy-slowed speed, is clamped to
/// the base speed, and integrates through the collision resolver.
pub fn move_player(
    player: &mut Player,
    pos: &mut V3,
    input: Option<Movement>,
    gs: &mut GameState,
    cs: &Collidables,
    dt: i64,
    fnum: i64,
) -> (died: bool)
    requires
        cs.wf(),
        v3_fits(*old(pos)),
        v3_fits(old(player).velocity),
        0 <= old(player).speed <= SPEED_LIMIT,
        -3000 <= old(player).dead_cooldown <= 30_000,
        0 <= dt <= DT_LIMIT,
        0 <= fnum <= 1000,
        old(gs).attached_enemies <= 100,
        old(gs).death_count < usize::MAX,
        input.is_some() ==> v3_fits(input->0->0),
        old(player).speed * dt <= 90_000_000_000,
        abs_i(old(player).velocity.x as int) * dt <= 50_000_000_000,
        abs_i(old(player).velocity.y as int) * dt <= 50_000_000_000,
        abs_i(old(player).velocity.z as int) * dt <= 50_000_000_000,
        (abs_i(old(player).velocity.x as int) + abs_i(old(player).velocity.z as int) + 1000) * dt
            <= 1_000_000_000_000,
    ensures
        old(player).is_dead ==> ({
            let cd = min_i(max_i(old(player).dead_cooldown - dt, -3000), 30_000);
            &&& *final(pos) == *old(pos)
            &&& final(player).velocity == old(player).velocity
            &&& died == (cd <= 0)
            &&& (died ==> final(player).is_dead == false && final(gs).death_count == old(
                gs,
            ).death_count + 1)
            &&& final(player).dead_cooldown == cd
            &&& (!died ==> final(player).is_dead == true && final(gs).death_count == old(
                gs,
            ).death_count)
        }),
        !old(player).is_dead ==> ({
            let v1 = decay(old(player).velocity, fnum as int);
            let v2 = if input.is_some() {
                clamped(
                    accelerated(
                        v1,
                        V3 {
                            x: signum_dead(input->0->0.x as int) as i64,
                            y: signum_dead(input->0->0.y as int) as i64,
                            z: signum_dead(input->0->0.z as int) as i64,
                        },
                        slowed_speed(old(player).speed as int, old(gs).attached_enemies as int),
                        dt as int,
                    ),
                    old(player).speed as int,
                )
            } else {
                clamped(v1, old(player).speed as int)
            };
            let resolved = fit_in_spec(
                cs.statics@,
                cs.dynamics@,
                *old(pos),
                moved(*old(pos), v2, dt as int),
                v2,
                dt as int,
            );
            &&& died == false
            &&& *final(pos) == resolved.0
            &&& final(player).velocity == resolved.1
            &&& final(player).is_dead == false
            &&& final(gs).death_count == old(gs).death_count
            &&& len2(v2) <= old(player).speed * old(player).speed
        }),
        final(player).speed == old(player).speed,
        final(player).friction == old(player).friction,
        final(player).random == old(player).random,
        final(player).has_football == old(player).has_football,
        final(player).rotation_speed == old(player).rotation_speed,
        final(gs).attached_enemies == old(gs).attached_enemies,
        final(gs).score == old(gs).score,
        final(gs).touchdown_on_leftside == old(gs).touchdown_on_leftside,
        final(gs).enemies_spawned == old(gs).enemies_spawned,
        final(gs).maze_size == old(gs).maze_size,
        final(gs).current_round == old(gs).current_round,
{
    if player.is_dead {
        let cd = clamp64(player.dead_cooldown - dt, -3000, 30_000);
        player.dead_cooldown = cd;
        if cd <= 0 {
            gs.death_count = gs.death_count + 1;
            player.is_dead = false;
            return true;
        }
        return false;
    }
    let ghost sp: int = player.speed as int;
    let v1 = decay_velocity(player.velocity, fnum);
    let v2 = match input {
        Some(Movement::Normal(raw)) => {
            let dir = raw.zero_signum();
            let attached: i64 = gs.attached_enemies as i64;
            proof {
                assert(0 <= sp * (attached as int) <= 100_000_000int && sp * (attached as int)
                    <= 100 * sp) by (nonlinear_arith)
                    requires
                        0 <= sp <= SPEED_LIMIT,
                        0 <= attached <= 100,
                ;
                crate::fx::lemma_tdiv_bounds(sp * (attached as int), 10);
                crate::fx::lemma_tdiv_mono_nonneg(sp * (attached as int), 100 * sp, 10);
                crate::fx::lemma_tdiv_multiple(10 * sp, 10);
                assert(100 * sp == (10 * sp) * 10) by (nonlinear_arith);
            }
            let eff: i64 = player.speed - div_trunc(player.speed * attached, 10);
            proof {
                assert(abs_i(eff as int) * dt <= 1_000_000_000_000) by (nonlinear_arith)
                    requires
                        abs_i(eff as int) <= 11 * sp,
                        0 <= dt,
                        sp * dt <= 90_000_000_000,
                        sp >= 0,
                        dt >= 0,
                ;
            }
            let accel = accelerate(v1, dir, eff, dt);
            clamp_speed(accel, player.speed)
        },
        None => clamp_speed(v1, player.speed),
    };
    player.velocity = v2;
    proof {
        lemma_speed_comp_bounds(v2, sp);
        assert(abs_i(v2.x as int) * dt <= 100_000_000_000 && abs_i(v2.y as int) * dt
            <= 100_000_000_000 && abs_i(v2.z as int) * dt <= 100_000_000_000 && (abs_i(
            v2.x as int,
        ) + abs_i(v2.z as int) + 1000) * dt <= 1_000_000_000_000) by (nonlinear_arith)
            requires
                abs_i(v2.x as int) <= sp,
                abs_i(v2.y as int) <= sp,
                abs_i(v2.z as int) <= sp,
                0 <= dt <= 1_000_000,
                sp >= 0,
                sp * dt <= 90_000_000_000,
        ;
    }
    let cur: V3 = *pos;
    let mut new_translation = advance(cur, v2, dt);
    let mut vel = v2;
    cs.fit_in(&cur, &mut new_translation, &mut vel, dt);
    player.velocity = vel;
    *pos = new_translation;
    false
}

/// A velocity whose squared length is below a speed's square has each
/// component below that speed.
pub(crate) proof fn lemma_speed_comp_bounds(v: V3, s: int)
    requires
        len2(v) <= s * s,
        s >= 0,
    ensures
        abs_i(v.x as int) <= s,
        abs_i(v.y as int) <= s,
        abs_i(v.z as int) <= s,
{
    assert(abs_i(v.x as int) <= s && abs_i(v.y as int) <= s && abs_i(v.z as int) <= s)
        by (nonlinear_arith)
        requires
            len2(v) <= s * s,
            s >= 0,
    ;
}

} // verus!
