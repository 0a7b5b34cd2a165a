//! The enemy agents: corn-occluded line-of-sight perception, pursuit
//! through the shared kinematics and collision resolver, the
//! dive-and-attach state machine, and the knockback flight the combine
//! blade launches them into.

use vstd::prelude::*;
use crate::fx::{tdiv, abs_i, div_trunc, ceil_isqrt, sqrt_ceil, SPEED_LIMIT, DT_LIMIT};
use crate::vec3::{V3, v3_fits, v3_near, len2, dist2, signum_dead};
use crate::kinematics::{
    decay, accelerated, clamped, decay_velocity, accelerate, clamp_speed, moved, advance,
};
use crate::collision::{Collidables, fit_in_spec, in_collidable};
use crate::arc::{arc_at, arc_position, FLIGHT_TIME, FLIGHT_HEIGHT};
use crate::maze::CornStalk;
use crate::rng::{
    random_unit_scalar, find_free_spot, free_spot_exists, SPAWN_MIN_X, SPAWN_MAX_X, SPAWN_MIN_Z,
    SPAWN_MAX_Z,
};

verus! {

/// Within this squared distance of the player a pursuing enemy commits
/// to a dive (three units).
pub const DIVE_DIST2: i64 = 9_000_000;

/// Within this squared distance a diving enemy attaches (three quarter
/// units).
pub const ATTACH_DIST2: i64 = 562_500;

/// Reach of the vision probe, milli-units.
pub const LOS_LENGTH: i64 = 25_000;

/// Half-width of the vision probe, milli-units.
pub const LOS_HALF_WIDTH: i64 = 500;

pub struct Enemy {
    /// The paired vision-probe actor's id.
    pub line_of_sight: usize,
    pub can_see_player: bool,
    pub velocity: V3,
    /// Max speed, milli-units per second.
    pub speed: i64,
    pub patrol_time: i64,
    pub rotation_speed: i64,
    pub has_dived: bool,
    pub is_attached: bool,
    pub is_launched: bool,
    /// Friction base, milli-units.
    pub friction: i64,
    /// Per-instance timing scalar, milli-units.
    pub random: i64,
    pub landing_target: V3,
    pub launch_starting_position: V3,
    /// Milliseconds into the current knockback flight.
    pub current_flying_time: i64,
}

/// The invisible forward vision cone paired with each enemy, as scaled
/// last tick: its world center, its axis direction (a milli-unit
/// vector) and its half-length.
pub struct EnemyLineOfSight {
    pub position: V3,
    pub facing: V3,
    pub half_length: i64,
}

/// The combine blade struck an enemy.
pub struct EnemyBladeEvent;

/// Ask for this round's enemy wave.
pub struct SpawnEnemiesEvent;

impl Enemy {
    pub fn new(line_of_sight: usize) -> (r: Enemy)
        ensures
            r.line_of_sight == line_of_sight,
            r.can_see_player == false,
            r.velocity == (V3 { x: 0i64, y: 0i64, z: 0i64 }),
            r.speed == 42_000,
            r.rotation_speed == 1000,
            r.friction == 10,
            r.patrol_time == 0,
            r.has_dived == false,
            r.is_attached == false,
            500 <= r.random < 1000,
            r.is_launched == false,
            r.landing_target == (V3 { x: 0i64, y: 0i64, z: 0i64 }),
            r.launch_starting_position == (V3 { x: 0i64, y: 0i64, z: 0i64 }),
            r.current_flying_time == 0,
    {
        Enemy {
            line_of_sight,
            can_see_player: false,
            velocity: V3 { x: 0, y: 0, z: 0 },
            speed: 42_000,
            rotation_speed: 1000,
            friction: 10,
            patrol_time: 0,
            has_dived: false,
            is_attached: false,
            random: random_unit_scalar(),
            is_launched: false,
            landing_target: V3 { x: 0, y: 0, z: 0 },
            launch_starting_position: V3 { x: 0, y: 0, z: 0 },
            current_flying_time: 0,
        }
    }

    /// The friction a tick's decay factor is derived from: diving adds
    /// a tenth of extra drag.
    pub fn effective_friction(&self) -> (r: i64)
        requires
            self.friction + 100 <= i64::MAX,
        ensures
            r == self.friction + (if self.has_dived {
                100int
            } else {
                0int
            }),
    {
        if self.has_dived {
            self.friction + 100
        } else {
            self.friction
        }
    }
}

/// Fly a launched enemy one tick along the knockback arc, tumbling left
/// to the renderer; when the flight time runs out it lands exactly on
/// its landing target at ground height, grounded again.
pub fn handle_flying_enemies(enemy: &mut Enemy, pos: &mut V3, dt: i64)
    requires
        v3_fits(old(enemy).launch_starting_position),
        v3_fits(old(enemy).landing_target),
        0 <= old(enemy).current_flying_time <= FLIGHT_TIME,
        0 <= dt <= DT_LIMIT,
    ensures
        !old(enemy).is_launched ==> *final(enemy) == *old(enemy) && *final(pos) == *old(pos),
        old(enemy).is_launched && old(enemy).current_flying_time + dt < FLIGHT_TIME ==> *final(pos)
            == arc_at(
            old(enemy).launch_starting_position,
            old(enemy).landing_target,
            old(enemy).current_flying_time as int,
            FLIGHT_TIME as int,
            FLIGHT_HEIGHT as int,
        ) && final(enemy).current_flying_time == old(enemy).current_flying_time + dt
            && final(enemy).is_launched == true,
        old(enemy).is_launched && old(enemy).current_flying_time + dt >= FLIGHT_TIME ==> *final(pos)
            == (V3 {
            x: old(enemy).landing_target.x,
            y: 0i64,
            z: old(enemy).landing_target.z,
        }) && final(enemy).current_flying_time == 0 && final(enemy).is_launched == false,
        final(enemy).landing_target == old(enemy).landing_target,
        final(enemy).launch_starting_position == old(enemy).launch_starting_position,
        final(enemy).velocity == old(enemy).velocity,
        final(enemy).has_dived == old(enemy).has_dived,
        final(enemy).is_attached == old(enemy).is_attached,
        final(enemy).can_see_player == old(enemy).can_see_player,
        final(enemy).line_of_sight == old(enemy).line_of_sight,
        final(enemy).speed == old(enemy).speed,
        final(enemy).friction == old(enemy).friction,
        final(enemy).random == old(enemy).random,
        final(enemy).rotation_speed == old(enemy).rotation_speed,
        final(enemy).patrol_time == old(enemy).patrol_time,
{
    if !enemy.is_launched {
        return ;
    }
    if enemy.current_flying_time + dt < FLIGHT_TIME {
        *pos = arc_position(
            enemy.launch_starting_position,
            enemy.landing_target,
            enemy.current_flying_time,
            FLIGHT_TIME,
            FLIGHT_HEIGHT,
        );
        enemy.current_flying_time = enemy.current_flying_time + dt;
    } else {
        *pos = V3 { x: enemy.landing_target.x, y: 0, z: enemy.landing_target.z };
        enemy.current_flying_time = 0;
        enemy.is_launched = false;
    }
}

/// The blade struck this enemy: pick a random free landing spot and
/// launch the knockback flight from the current position.
pub fn handle_enemy_blade_event(enemy: &mut Enemy, pos: &V3, cs: &Collidables)
    requires
        cs.wf(),
    ensures
        final(enemy).is_launched == true,
        final(enemy).current_flying_time == 0,
        final(enemy).launch_starting_position == *pos,
        SPAWN_MIN_X <= final(enemy).landing_target.x <= SPAWN_MAX_X,
        SPAWN_MIN_Z <= final(enemy).landing_target.z <= SPAWN_MAX_Z,
        final(enemy).landing_target.y == 0,
        free_spot_exists(cs.statics@, cs.dynamics@) ==> !in_collidable(
            cs.statics@,
            cs.dynamics@,
            final(enemy).landing_target,
        ),
        final(enemy).velocity == old(enemy).velocity,
        final(enemy).has_dived == old(enemy).has_dived,
        final(enemy).is_attached == old(enemy).is_attached,
        final(enemy).can_see_player == old(enemy).can_see_player,
        final(enemy).line_of_sight == old(enemy).line_of_sight,
        final(enemy).speed == old(enemy).speed,
        final(enemy).friction == old(enemy).friction,
        final(enemy).random == old(enemy).random,
        final(enemy).rotation_speed == old(enemy).rotation_speed,
        final(enemy).patrol_time == old(enemy).patrol_time,
{
    let target = find_free_spot(cs);
    enemy.landing_target = target;
    enemy.launch_starting_position = *pos;
    enemy.current_flying_time = 0;
    enemy.is_launched = true;
}

/// Spawn this round's enemy wave: five enemies in the first round,
/// three after, each at a random free spot, each paired with the next
/// vision-probe id.
pub fn handle_spawn_enemies_event(cs: &Collidables, current_round: usize, first_los_id: usize) -> (r:
    Vec<(Enemy, V3)>)
    requires
        cs.wf(),
        first_los_id + 5 <= usize::MAX,
    ensures
        r@.len() == (if current_round == 1 {
            5int
        } else {
            3int
        }),
        forall|k: int|
            0 <= k < r@.len() ==> {
                let (e, p) = #[trigger] r@[k];
                e.line_of_sight == first_los_id + k && e.is_launched == false && e.is_attached
                    == false && e.has_dived == false && e.speed == 42_000 && SPAWN_MIN_X <= p.x
                    <= SPAWN_MAX_X && SPAWN_MIN_Z <= p.z <= SPAWN_MAX_Z && p.y == 0 && (
                free_spot_exists(cs.statics@, cs.dynamics@) ==> !in_collidable(
                    cs.statics@,
                    cs.dynamics@,
                    p,
                ))
            },
{
    let count: usize = if current_round == 1 {
        5
    } else {
        3
    };
    let mut r: Vec<(Enemy, V3)> = Vec::new();
    let mut k: usize = 0;
    while k < count
        invariant
            cs.wf(),
            first_los_id + 5 <= usize::MAX,
            count <= 5,
            k <= count,
            r@.len() == k,
            forall|j: int|
                0 <= j < k ==> {
                    let (e, p) = #[trigger] r@[j];
                    e.line_of_sight == first_los_id + j && e.is_launched == false && e.is_attached
                        == false && e.has_dived == false && e.speed == 42_000 && SPAWN_MIN_X <= p.x
                        <= SPAWN_MAX_X && SPAWN_MIN_Z <= p.z <= SPAWN_MAX_Z && p.y == 0 && (
                    free_spot_exists(cs.statics@, cs.dynamics@) ==> !in_collidable(
                        cs.statics@,
                        cs.dynamics@,
                        p,
                    ))
                },
        decreases count - k,
    {
        let spot = find_free_spot(cs);
        let e = Enemy::new(first_los_id + k);
        r.push((e, spot));
        k = k + 1;
    }
    r
}

/// Probe membership: the point's offset from the probe's center,
/// projected on and across the probe's axis, falls inside the probe's
/// half-length and half-width (strictly). The axis is a milli-unit
/// vector, so projections divide by a thousand.
pub open spec fn in_probe(probe: EnemyLineOfSight, p: V3) -> bool {
    let dx = p.x - probe.position.x;
    let dz = p.z - probe.position.z;
    let along = tdiv(dx * probe.facing.x + dz * probe.facing.z, 1000);
    let perp = tdiv(dx * probe.facing.z - dz * probe.facing.x, 1000);
    abs_i(along) < probe.half_length && abs_i(perp) < LOS_HALF_WIDTH
}

pub open spec fn probe_wf(probe: EnemyLineOfSight) -> bool {
    v3_near(probe.position) && abs_i(probe.facing.x as int) <= 2000 && abs_i(probe.facing.y as int)
        <= 2000 && abs_i(probe.facing.z as int) <= 2000 && 0 <= probe.half_length
}

/// A stalk the probe must reckon with: standing, and inside the probe.
pub open spec fn occluding(
    corn: Seq<CornStalk>,
    probe: EnemyLineOfSight,
    i: int,
) -> bool {
    0 <= i < corn.len() && !corn[i].is_harvested && in_probe(probe, corn[i].position)
}

fn in_probe_exec(probe: &EnemyLineOfSight, p: &V3) -> (r: bool)
    requires
        probe_wf(*probe),
        v3_fits(*p),
    ensures
        r == in_probe(*probe, *p),
{
    let dx: i64 = p.x - probe.position.x;
    let dz: i64 = p.z - probe.position.z;
    proof {
        assert(abs_i((dx as int) * (probe.facing.x as int)) <= 600_000_000_000int && abs_i((
        dz as int) * (probe.facing.z as int)) <= 600_000_000_000int && abs_i(
            (dx as int) * (probe.facing.z as int),
        ) <= 600_000_000_000int && abs_i((dz as int) * (probe.facing.x as int))
            <= 600_000_000_000int) by (nonlinear_arith)
            requires
                abs_i(dx as int) <= 300_000_000,
                abs_i(dz as int) <= 300_000_000,
                abs_i(probe.facing.x as int) <= 2000,
                abs_i(probe.facing.z as int) <= 2000,
        ;
    }
    let along: i64 = div_trunc(dx * probe.facing.x + dz * probe.facing.z, 1000);
    let perp: i64 = div_trunc(dx * probe.facing.z - dz * probe.facing.x, 1000);
    let a = crate::fx::abs64(along);
    let b = crate::fx::abs64(perp);
    a < probe.half_length && b < LOS_HALF_WIDTH
}

/// Rescale an enemy's vision probe and refresh its sight flag. The
/// probe as scaled last tick does the seeing: the player is seen when
/// it stands inside that probe and closer to the enemy than the sight
/// line's end, which the nearest standing stalk inside the probe
/// truncates (corn blocks sight; with no stalk the line runs its full
/// reach along the facing). The probe is then rescaled to span the
/// enemy and the sight line's end at unit height.
pub fn scale_lines_of_sight(
    enemy: &mut Enemy,
    enemy_pos: &V3,
    facing: &V3,
    probe: &mut EnemyLineOfSight,
    corn: &Vec<CornStalk>,
    player_pos: &V3,
)
    requires
        probe_wf(*old(probe)),
        v3_fits(*enemy_pos),
        v3_fits(*player_pos),
        abs_i(facing.x as int) <= 2000,
        abs_i(facing.y as int) <= 2000,
        abs_i(facing.z as int) <= 2000,
        forall|i: int| 0 <= i < corn@.len() ==> v3_fits(#[trigger] corn@[i].position),
    ensures
        ({
            let far_end = V3 {
                x: (enemy_pos.x + tdiv(LOS_LENGTH * facing.x, 1000)) as i64,
                y: (enemy_pos.y + tdiv(LOS_LENGTH * facing.y, 1000)) as i64,
                z: (enemy_pos.z + tdiv(LOS_LENGTH * facing.z, 1000)) as i64,
            };
            let probe0 = *old(probe);
            // The chosen sight end: the first nearest occluding stalk,
            // or the full reach with none standing in the probe.
            exists|end: V3|
                {
                    &&& ((forall|i: int| !occluding(corn@, probe0, i)) ==> end == far_end)
                    &&& ((exists|i: int| occluding(corn@, probe0, i)) ==> exists|i: int|
                        {
                            &&& occluding(corn@, probe0, i)
                            &&& end == corn@[i].position
                            &&& forall|j: int|
                                occluding(corn@, probe0, j) ==> dist2(*enemy_pos, end) <= dist2(
                                    *enemy_pos,
                                    #[trigger] corn@[j].position,
                                )
                            &&& forall|j: int|
                                occluding(corn@, probe0, j) && j < i ==> dist2(*enemy_pos, end)
                                    < dist2(*enemy_pos, #[trigger] corn@[j].position)
                        })
                    &&& final(enemy).can_see_player == (in_probe(probe0, *player_pos) && dist2(
                        *enemy_pos,
                        end,
                    ) > dist2(*player_pos, *enemy_pos))
                    &&& final(probe).position == (V3 {
                        x: (enemy_pos.x + tdiv(end.x - enemy_pos.x, 2)) as i64,
                        y: 1000i64,
                        z: (enemy_pos.z + tdiv(end.z - enemy_pos.z, 2)) as i64,
                    })
                    &&& final(probe).half_length == tdiv(sqrt_ceil(dist2(*enemy_pos, end)), 2)
                    &&& final(probe).facing == *facing
                }
        }),
        final(enemy).velocity == old(enemy).velocity,
        final(enemy).has_dived == old(enemy).has_dived,
        final(enemy).is_attached == old(enemy).is_attached,
        final(enemy).is_launched == old(enemy).is_launched,
        final(enemy).line_of_sight == old(enemy).line_of_sight,
        final(enemy).speed == old(enemy).speed,
        final(enemy).friction == old(enemy).friction,
        final(enemy).random == old(enemy).random,
        final(enemy).rotation_speed == old(enemy).rotation_speed,
        final(enemy).patrol_time == old(enemy).patrol_time,
        final(enemy).landing_target == old(enemy).landing_target,
        final(enemy).launch_starting_position == old(enemy).launch_starting_position,
        final(enemy).current_flying_time == old(enemy).current_flying_time,
{
    let probe0: EnemyLineOfSight = EnemyLineOfSight {
        position: probe.position,
        facing: probe.facing,
        half_length: probe.half_length,
    };
    let player_in = in_probe_exec(&probe0, player_pos);
    let mut best: usize = 0;
    let mut have_best = false;
    let mut best_d2: u64 = 0;
    let mut i: usize = 0;
    while i < corn.len()
        invariant
            probe_wf(probe0),
            v3_fits(*enemy_pos),
            forall|k: int| 0 <= k < corn@.len() ==> v3_fits(#[trigger] corn@[k].position),
            i <= corn@.len(),
            !have_best ==> forall|k: int| 0 <= k < i ==> !occluding(corn@, probe0, k),
            have_best ==> ({
                &&& occluding(corn@, probe0, best as int)
                &&& best < i
                &&& best_d2 as int == dist2(*enemy_pos, corn@[best as int].position)
                &&& forall|j: int|
                    0 <= j < i && occluding(corn@, probe0, j) ==> best_d2 as int <= dist2(
                        *enemy_pos,
                        #[trigger] corn@[j].position,
                    )
                &&& forall|j: int|
                    0 <= j < best && occluding(corn@, probe0, j) ==> (best_d2 as int) < dist2(
                        *enemy_pos,
                        #[trigger] corn@[j].position,
                    )
            }),
        decreases corn@.len() - i,
    {
        if !corn[i].is_harvested {
            let p = corn[i].position;
            if in_probe_exec(&probe0, &p) {
                let d2 = enemy_pos.dist2_u64(&p);
                if !have_best || d2 < best_d2 {
                    have_best = true;
                    best = i;
                    best_d2 = d2;
                }
            }
        }
        i = i + 1;
    }
    let end: V3 = if have_best {
        corn[best].position
    } else {
        V3 {
            x: enemy_pos.x + div_trunc(LOS_LENGTH * facing.x, 1000),
            y: enemy_pos.y + div_trunc(LOS_LENGTH * facing.y, 1000),
            z: enemy_pos.z + div_trunc(LOS_LENGTH * facing.z, 1000),
        }
    };
    let sight_d2: u64 = enemy_pos.dist2_u64(&end);
    let player_d2: u64 = player_pos.dist2_u64(enemy_pos);
    enemy.can_see_player = player_in && sight_d2 > player_d2;
    let l: u64 = ceil_isqrt(sight_d2);
    probe.position = V3 {
        x: enemy_pos.x + div_trunc(end.x - enemy_pos.x, 2),
        y: 1000,
        z: enemy_pos.z + div_trunc(end.z - enemy_pos.z, 2),
    };
    probe.half_length = div_trunc(l as i64, 2);
    probe.facing = V3 { x: facing.x, y: facing.y, z: facing.z };
}

/// The dive velocity: the player-relative direction scaled to half the
/// max speed (through the ceiling square root of its squared length).
pub open spec fn dive_velocity(d: V3, speed: int) -> V3 {
    let l = sqrt_ceil(len2(d));
    V3 {
        x: tdiv(d.x * tdiv(speed, 2), l) as i64,
        y: tdiv(d.y * tdiv(speed, 2), l) as i64,
        z: tdiv(d.z * tdiv(speed, 2), l) as i64,
    }
}

/// The dive speed, exactly, on an axis-aligned dive: when the
/// player-relative direction lies along one axis, the fixed-point
/// scaling loses nothing and the dive velocity's squared length is
/// exactly the square of half the max speed. (Off axis, the truncating
/// scaling can fall short by a fraction of a milli-unit; `move_enemy`
/// bounds it by the same square.)
pub proof fn lemma_dive_speed_axis(d: V3, speed: int)
    requires
        d.y == 0,
        d.z == 0,
        d.x != 0,
        0 <= speed <= SPEED_LIMIT,
    ensures
        len2(dive_velocity(d, speed)) == tdiv(speed, 2) * tdiv(speed, 2),
{
    let a = d.x as int;
    let h = tdiv(speed, 2);
    crate::fx::lemma_tdiv_bounds(speed, 2);
    assert(a * a >= 0 && crate::fx::is_sqrt_ceil(a * a, abs_i(a))) by (nonlinear_arith)
        requires
            a != 0,
    ;
    crate::fx::lemma_sqrt_ceil_is(a * a, abs_i(a));
    assert(len2(d) == a * a) by {
        assert(0int * 0int == 0) by (nonlinear_arith);
    }
    let l = abs_i(a);
    if a > 0 {
        assert(a * h == h * l) by (nonlinear_arith)
            requires
                a > 0,
                l == a,
        ;
        crate::fx::lemma_tdiv_multiple(h, l);
        assert(tdiv(a * h, l) == h);
    } else {
        assert(a * h == (-h) * l) by (nonlinear_arith)
            requires
                a < 0,
                l == -a,
        ;
        crate::fx::lemma_tdiv_multiple(-h, l);
        assert(tdiv(a * h, l) == -h);
    }
    assert(0int * h == 0 * l) by (nonlinear_arith);
    crate::fx::lemma_tdiv_multiple(0, l);
    assert(tdiv(0 * h, l) == 0);
    assert(h * h == (-h) * (-h) && 0int * 0int == 0) by (nonlinear_arith);
}

/// What one enemy movement tick reported: whether the enemy attached to
/// the player, and whether it committed to a dive (each plays a sound).
pub struct EnemyMoveEvents {
    pub attached: bool,
    pub dived: bool,
}

/// Move one grounded enemy a tick. A launched enemy is skipped (its
/// flight moves it). A diving enemy within attach range attaches,
/// riding the player and slowing it by bumping the attached count. An
/// attached enemy is slaved to the player's position. Otherwise the
/// enemy decays by friction, pursues the player along the quantized
/// player-relative direction while it sees it (committing to a dive at
/// half speed inside dive range), and integrates through the collision
/// resolver; a dive ends when the velocity has fully decayed.
pub fn move_enemy(
    enemy: &mut Enemy,
    pos: &mut V3,
    player_pos: &V3,
    attached_enemies: &mut usize,
    cs: &Collidables,
    dt: i64,
    fnum: i64,
) -> (ev: EnemyMoveEvents)
    requires
        cs.wf(),
        v3_fits(*old(pos)),
        v3_fits(*player_pos),
        v3_fits(old(enemy).velocity),
        0 <= old(enemy).speed <= SPEED_LIMIT,
        0 <= dt <= DT_LIMIT,
        0 <= fnum <= 1000,
        *old(attached_enemies) < usize::MAX,
        old(enemy).speed * dt <= 90_000_000_000,
        abs_i(old(enemy).velocity.x as int) * dt <= 50_000_000_000,
        abs_i(old(enemy).velocity.y as int) * dt <= 50_000_000_000,
        abs_i(old(enemy).velocity.z as int) * dt <= 50_000_000_000,
        (abs_i(old(enemy).velocity.x as int) + abs_i(old(enemy).velocity.z as int) + 1000) * dt
            <= 1_000_000_000_000,
    ensures
        ({
            let e0 = *old(enemy);
            let p0 = *old(pos);
            let v1 = decay(e0.velocity, fnum as int);
            let attach_now = !e0.is_launched && e0.has_dived && dist2(*player_pos, p0)
                < ATTACH_DIST2;
            &&& (e0.is_launched ==> *final(enemy) == e0 && *final(pos) == p0
                && *final(attached_enemies) == *old(attached_enemies) && ev.attached == false
                && ev.dived == false)
            &&& (attach_now ==> final(enemy).is_attached == true && final(enemy).has_dived == false
                && final(enemy).velocity == v1 && *final(pos) == *player_pos
                && *final(attached_enemies) == *old(attached_enemies) + 1 && ev.attached == true
                && ev.dived == false)
            &&& (!e0.is_launched && !attach_now && e0.is_attached ==> final(enemy).is_attached
                == true && final(enemy).has_dived == e0.has_dived && final(enemy).velocity == v1
                && *final(pos) == *player_pos && *final(attached_enemies) == *old(attached_enemies)
                && ev.attached == false && ev.dived == false)
            &&& (!e0.is_launched && !attach_now && !e0.is_attached ==> {
                let pursuing = e0.can_see_player && !e0.has_dived;
                let d = V3 {
                    x: (player_pos.x - p0.x) as i64,
                    y: (player_pos.y - p0.y) as i64,
                    z: (player_pos.z - p0.z) as i64,
                };
                let v2 = if pursuing {
                    clamped(
                        accelerated(
                            v1,
                            V3 {
                                x: signum_dead(d.x as int) as i64,
                                y: signum_dead(d.y as int) as i64,
                                z: signum_dead(d.z as int) as i64,
                            },
                            e0.speed as int,
                            dt as int,
                        ),
                        e0.speed as int,
                    )
                } else {
                    v1
                };
                let dive_now = pursuing && dist2(*player_pos, p0) < DIVE_DIST2;
                let v3 = if dive_now && len2(d) > 0 {
                    dive_velocity(d, e0.speed as int)
                } else {
                    v2
                };
                let resolved = fit_in_spec(
                    cs.statics@,
                    cs.dynamics@,
                    p0,
                    moved(p0, v3, dt as int),
                    v3,
                    dt as int,
                );
                &&& *final(pos) == resolved.0
                &&& final(enemy).velocity == resolved.1
                &&& final(enemy).has_dived == ((e0.has_dived || dive_now) && len2(resolved.1) >= 1)
                &&& final(enemy).is_attached == false
                &&& *final(attached_enemies) == *old(attached_enemies)
                &&& ev.attached == false
                &&& ev.dived == dive_now
                &&& (dive_now && len2(d) > 0 ==> len2(v3) <= tdiv(e0.speed as int, 2) * tdiv(
                    e0.speed as int,
                    2,
                ))
                &&& (pursuing ==> len2(v2) <= e0.speed * e0.speed)
            })
            &&& final(enemy).can_see_player == e0.can_see_player
            &&& final(enemy).is_launched == e0.is_launched
            &&& final(enemy).line_of_sight == e0.line_of_sight
            &&& final(enemy).speed == e0.speed
            &&& final(enemy).friction == e0.friction
            &&& final(enemy).random == e0.random
            &&& final(enemy).rotation_speed == e0.rotation_speed
            &&& final(enemy).patrol_time == e0.patrol_time
            &&& final(enemy).landing_target == e0.landing_target
            &&& final(enemy).launch_starting_position == e0.launch_starting_position
            &&& final(enemy).current_flying_time == e0.current_flying_time
        }),
{
    if enemy.is_launched {
        return EnemyMoveEvents { attached: false, dived: false };
    }
    let ghost sp: int = enemy.speed as int;
    let v1 = decay_velocity(enemy.velocity, fnum);
    enemy.velocity = v1;
    let d2p: u64 = player_pos.dist2_u64(pos);
    if enemy.has_dived && d2p < (ATTACH_DIST2 as u64) {
        enemy.is_attached = true;
        enemy.has_dived = false;
        *attached_enemies = *attached_enemies + 1;
        *pos = V3 { x: player_pos.x, y: player_pos.y, z: player_pos.z };
        return EnemyMoveEvents { attached: true, dived: false };
    }
    if enemy.is_attached {
        *pos = V3 { x: player_pos.x, y: player_pos.y, z: player_pos.z };
        return EnemyMoveEvents { attached: false, dived: false };
    }
    let pursuing = enemy.can_see_player && !enemy.has_dived;
    let mut dived = false;
    if pursuing {
        let d = player_pos.sub(*pos);
        let dir = d.zero_signum();
        let accel = accelerate(v1, dir, enemy.speed, dt);
        enemy.velocity = clamp_speed(accel, enemy.speed);
        if d2p < (DIVE_DIST2 as u64) {
            dived = true;
            let dl2: u64 = d.len2_u64();
            if dl2 > 0 {
                let half: i64 = div_trunc(enemy.speed, 2);
                let l: u64 = ceil_isqrt(dl2);
                proof {
                    assert(l >= 1) by {
                        if l == 0 {
                            assert((l as int) * (l as int) == 0) by (nonlinear_arith)
                                requires
                                    l == 0,
                            ;
                        }
                    }
                    assert(abs_i((d.x as int) * (half as int)) <= 0x4000_0000_0000_0000 && abs_i(
                        (d.y as int) * (half as int),
                    ) <= 0x4000_0000_0000_0000 && abs_i((d.z as int) * (half as int))
                        <= 0x4000_0000_0000_0000) by (nonlinear_arith)
                        requires
                            abs_i(d.x as int) <= 200_000_000,
                            abs_i(d.y as int) <= 200_000_000,
                            abs_i(d.z as int) <= 200_000_000,
                            0 <= half <= 500_000,
                    ;
                }
                let dv = V3 {
                    x: div_trunc(d.x * half, l as i64),
                    y: div_trunc(d.y * half, l as i64),
                    z: div_trunc(d.z * half, l as i64),
                };
                proof {
                    crate::kinematics::lemma_scaled_len2_le(
                        d.x as int,
                        d.y as int,
                        d.z as int,
                        half as int,
                        l as int,
                        dv.x as int,
                        dv.y as int,
                        dv.z as int,
                    );
                }
                enemy.velocity = dv;
            }
        }
    }
    let v3now = enemy.velocity;
    proof {
        lemma_enemy_vel_bounds(
            v3now,
            *old(enemy),
            decay(old(enemy).velocity, fnum as int),
            dt as int,
        );
    }
    let cur: V3 = *pos;
    let mut new_translation = advance(cur, v3now, dt);
    let mut vel = v3now;
    cs.fit_in(&cur, &mut new_translation, &mut vel, dt);
    enemy.velocity = vel;
    *pos = new_translation;
    if enemy.has_dived || dived {
        let l2 = enemy.velocity.len2_u64();
        enemy.has_dived = l2 >= 1;
    } else {
        enemy.has_dived = false;
    }
    EnemyMoveEvents { attached: false, dived }
}

/// The velocity an enemy integrates with is bounded by what it started
/// from or its speed, so the resolver's and mover's caps hold.
proof fn lemma_enemy_vel_bounds(v: V3, e0: Enemy, v1: V3, dt: int)
    requires
        0 <= dt <= DT_LIMIT as int,
        0 <= e0.speed <= SPEED_LIMIT,
        e0.speed * dt <= 90_000_000_000,
        abs_i(e0.velocity.x as int) * dt <= 50_000_000_000,
        abs_i(e0.velocity.y as int) * dt <= 50_000_000_000,
        abs_i(e0.velocity.z as int) * dt <= 50_000_000_000,
        (abs_i(e0.velocity.x as int) + abs_i(e0.velocity.z as int) + 1000) * dt
            <= 1_000_000_000_000,
        v3_fits(e0.velocity),
        abs_i(v1.x as int) <= abs_i(e0.velocity.x as int),
        abs_i(v1.y as int) <= abs_i(e0.velocity.y as int),
        abs_i(v1.z as int) <= abs_i(e0.velocity.z as int),
        v == v1 || len2(v) <= e0.speed * e0.speed || len2(v) <= tdiv(e0.speed as int, 2) * tdiv(
            e0.speed as int,
            2,
        ),
    ensures
        v3_fits(v),
        abs_i(v.x as int) * dt <= 100_000_000_000,
        abs_i(v.y as int) * dt <= 100_000_000_000,
        abs_i(v.z as int) * dt <= 100_000_000_000,
        (abs_i(v.x as int) + abs_i(v.z as int) + 1000) * dt <= 1_000_000_000_000,
{
    let sp = e0.speed as int;
    crate::fx::lemma_tdiv_bounds(sp, 2);
    if v == v1 {
        assert(abs_i(v.x as int) * dt <= 50_000_000_000 && abs_i(v.y as int) * dt
            <= 50_000_000_000 && abs_i(v.z as int) * dt <= 50_000_000_000 && (abs_i(v.x as int)
            + abs_i(v.z as int) + 1000) * dt <= 1_000_000_000_000) by (nonlinear_arith)
            requires
                abs_i(v.x as int) <= abs_i(e0.velocity.x as int),
                abs_i(v.y as int) <= abs_i(e0.velocity.y as int),
                abs_i(v.z as int) <= abs_i(e0.velocity.z as int),
                abs_i(e0.velocity.x as int) * dt <= 50_000_000_000,
                abs_i(e0.velocity.y as int) * dt <= 50_000_000_000,
                abs_i(e0.velocity.z as int) * dt <= 50_000_000_000,
                (abs_i(e0.velocity.x as int) + abs_i(e0.velocity.z as int) + 1000) * dt
                    <= 1_000_000_000_000,
                dt >= 0,
        ;
    } else {
        let bound = if len2(v) <= sp * sp {
            sp
        } else {
            tdiv(sp, 2)
        };
        assert(len2(v) <= bound * bound) by (nonlinear_arith)
            requires
                bound == sp || bound == tdiv(sp, 2),
                len2(v) <= sp * sp || len2(v) <= tdiv(sp, 2) * tdiv(sp, 2),
                bound == (if len2(v) <= sp * sp {
                    sp
                } else {
                    tdiv(sp, 2)
                }),
        ;
        crate::player::lemma_speed_comp_bounds(v, bound);
        assert(abs_i(v.x as int) * dt <= 90_000_000_000 && abs_i(v.y as int) * dt
            <= 90_000_000_000 && abs_i(v.z as int) * dt <= 90_000_000_000 && (abs_i(v.x as int)
            + abs_i(v.z as int) + 1000) * dt <= 1_000_000_000_000) by (nonlinear_arith)
            requires
                abs_i(v.x as int) <= bound,
                abs_i(v.y as int) <= bound,
                abs_i(v.z as int) <= bound,
                0 <= bound <= sp,
                sp * dt <= 90_000_000_000,
                0 <= dt <= 1_000_000,
                0 <= sp,
        ;
    }
}

} // verus!
