//! The combine harvester: the row-sweep state machine that drives it
//! across the maze and turns it at each row's end toward a randomly
//! chosen unharvested stalk, and the blade hitbox that harvests corn
//! and knocks actors away independently of the drive logic.

use vstd::prelude::*;
use crate::fx::{tdiv, abs_i, clamp64, min_i, max_i, SPEED_LIMIT, DT_LIMIT};
use crate::vec3::{V3, v3_fits, v3_near, len2, sq};
use crate::collision::{
    DynamicCollidable, QuarterTurn, strictly_in_aabb_xz, local_point,
};
use crate::kinematics::{decay, accelerated, clamped, decay_velocity, accelerate, clamp_speed, moved, advance};
use crate::maze::{CornStalk, has_unharvested};
use crate::player::Player;
use crate::enemy::Enemy;
use crate::football::Football;
use crate::rng::random_below;

verus! {

/// Milliseconds a row-end turn takes before the combine drives again.
pub const TURN_TIME: i64 = 1100;

/// Which way the combine is sweeping: along a row toward either goal
/// (`Left` toward negative Z, `Right` toward positive Z) or across rows
/// to the next row's X offset (`Up` toward positive X, `Down` toward
/// negative X).
#[derive(Clone, Copy, PartialEq, Eq, Structural, Debug)]
pub enum Heading {
    Left,
    Right,
    Up,
    Down,
}

pub struct Combine {
    pub heading: Heading,
    pub velocity: V3,
    /// Max speed, milli-units per second.
    pub speed: i64,
    /// Milliseconds since the last turn began.
    pub current_rotation_time: i64,
    /// The yaw the current turn settles into.
    pub target_rotation: QuarterTurn,
    /// The next row's X offset, milli-units.
    pub target_x_coordinate: i64,
    /// Friction base, milli-units.
    pub friction: i64,
}

/// The combine's contact volume, recomputed per query from the blade
/// mesh's local box and the combine's live transform.
pub struct CombineBlade {
    pub volume: DynamicCollidable,
}

/// The unit axis a heading drives along (a signed milli-unit).
pub open spec fn heading_axis(h: Heading) -> V3 {
    match h {
        Heading::Left => V3 { x: 0i64, y: 0i64, z: -1000i64 },
        Heading::Right => V3 { x: 0i64, y: 0i64, z: 1000i64 },
        Heading::Up => V3 { x: 1000i64, y: 0i64, z: 0i64 },
        Heading::Down => V3 { x: -1000i64, y: 0i64, z: 0i64 },
    }
}

/// The yaw a heading faces.
pub open spec fn heading_turn(h: Heading) -> QuarterTurn {
    match h {
        Heading::Left => QuarterTurn::Turn90,
        Heading::Right => QuarterTurn::Turn270,
        Heading::Up => QuarterTurn::Turn0,
        Heading::Down => QuarterTurn::Turn180,
    }
}

/// The yaw a heading faces, computed (for the renderer and for the
/// registry entries that follow the combine's pose).
pub fn heading_quarter_turn(h: Heading) -> (r: QuarterTurn)
    ensures
        r == heading_turn(h),
{
    match h {
        Heading::Left => QuarterTurn::Turn90,
        Heading::Right => QuarterTurn::Turn270,
        Heading::Up => QuarterTurn::Turn0,
        Heading::Down => QuarterTurn::Turn180,
    }
}

impl Default for Heading {
    fn default() -> (r: Heading)
        ensures
            r == Heading::Left,
    {
        Heading::Left
    }
}

impl Default for Combine {
    fn default() -> (r: Combine)
        ensures
            r.heading == Heading::Left,
            r.velocity == (V3 { x: 0i64, y: 0i64, z: 0i64 }),
            r.speed == 30_000,
            r.current_rotation_time == 0,
            r.target_rotation == QuarterTurn::Turn90,
            r.target_x_coordinate == 0,
            r.friction == 10,
    {
        Combine {
            heading: Heading::Left,
            velocity: V3 { x: 0, y: 0, z: 0 },
            speed: 30_000,
            current_rotation_time: 0,
            target_rotation: QuarterTurn::Turn90,
            target_x_coordinate: 0,
            friction: 10,
        }
    }
}

/// Whether the combine has crossed the maze half-width on the side its
/// row sweep is heading for.
pub open spec fn row_end_reached(h: Heading, pos: V3, maze_size: int) -> bool {
    (h == Heading::Left && pos.z < -tdiv(maze_size, 2)) || (h == Heading::Right && pos.z > tdiv(
        maze_size,
        2,
    ))
}

/// The drive phase of one tick: the turn timer advances (clamped into
/// zero to three seconds); while it is inside the turn window the
/// combine holds still (the renderer interpolates the yaw), afterwards
/// it decays by friction, accelerates along its heading's axis, clamps
/// to its max speed like every actor, and moves. The combine does not
/// collide.
pub open spec fn drive_phase(c: Combine, pos: V3, dt: int, fnum: int) -> (Combine, V3) {
    let t = min_i(max_i(c.current_rotation_time + dt, 0), 3000);
    if t <= TURN_TIME {
        (
            Combine {
                current_rotation_time: t as i64,
                ..c
            },
            pos,
        )
    } else {
        let v = clamped(
            accelerated(decay(c.velocity, fnum), heading_axis(c.heading), c.speed as int, dt),
            c.speed as int,
        );
        (
            Combine {
                current_rotation_time: t as i64,
                velocity: v,
                ..c
            },
            moved(pos, v, dt),
        )
    }
}

/// Drive the combine one tick of its row-sweep state machine.
///
/// At a row's end the combine resets its turn timer, zeroes its row
/// velocity and picks a random unharvested stalk as the next row's X
/// offset, turning `Up` or `Down` toward it; when no stalk is left it
/// signals the round is over instead and assigns no new target. While
/// crossing rows it turns back into a row sweep once it reaches the
/// target offset, toward whichever goal is farther. Then the drive
/// phase runs.
#[verifier::rlimit(80)]
pub fn harvest_corn(
    combine: &mut Combine,
    pos: &mut V3,
    corn: &Vec<CornStalk>,
    maze_size: i64,
    dt: i64,
    fnum: i64,
) -> (round_over: bool)
    requires
        v3_fits(*old(pos)),
        len2(old(combine).velocity) <= old(combine).speed * old(combine).speed,
        0 <= old(combine).speed <= SPEED_LIMIT,
        -3000 <= old(combine).current_rotation_time <= 3000,
        0 <= dt <= DT_LIMIT,
        0 <= fnum <= 1000,
        0 <= maze_size <= 1_000_000_000,
        corn@.len() <= 1_000_000_000,
        old(combine).speed * dt <= 90_000_000_000,
        forall|i: int| 0 <= i < corn@.len() ==> v3_fits(#[trigger] corn@[i].position),
    ensures
        round_over == (row_end_reached(old(combine).heading, *old(pos), maze_size as int)
            && !has_unharvested(corn@)),
        len2(final(combine).velocity) <= old(combine).speed * old(combine).speed,
        ({
            let h0 = old(combine).heading;
            let c0 = *old(combine);
            let p0 = *old(pos);
            let half = tdiv(maze_size as int, 2);
            // A row sweep that has not crossed yet, or a row crossing
            // that has not reached its target, leaves the state machine
            // alone: only the drive phase runs.
            let unchanged = ((h0 == Heading::Left || h0 == Heading::Right)
                && !row_end_reached(h0, p0, maze_size as int)) || (h0 == Heading::Up && p0.x
                < c0.target_x_coordinate) || (h0 == Heading::Down && p0.x
                >= c0.target_x_coordinate);
            &&& (unchanged ==> (*final(combine), *final(pos)) == drive_phase(
                c0,
                p0,
                dt as int,
                fnum as int,
            ))
            // The round-over case: timer and row velocity reset, no new
            // target, heading kept.
            &&& (row_end_reached(h0, p0, maze_size as int) && !has_unharvested(corn@) ==> (
            *final(combine),
            *final(pos),
            ) == drive_phase(
                Combine {
                    current_rotation_time: 0,
                    velocity: V3 { x: c0.velocity.x, y: c0.velocity.y, z: 0i64 },
                    ..c0
                },
                p0,
                dt as int,
                fnum as int,
            ))
            // The turn case: some unharvested stalk's X offset becomes
            // the target, and the crossing heading points at it.
            &&& (row_end_reached(h0, p0, maze_size as int) && has_unharvested(corn@)
                ==> exists|i: int|
                0 <= i < corn@.len() && !corn@[i].is_harvested && {
                    let tx = corn@[i].position.x;
                    let up = tx > p0.x;
                    (*final(combine), *final(pos)) == drive_phase(
                        Combine {
                            current_rotation_time: 0,
                            velocity: V3 { x: c0.velocity.x, y: c0.velocity.y, z: 0i64 },
                            target_x_coordinate: tx,
                            heading: if up {
                                Heading::Up
                            } else {
                                Heading::Down
                            },
                            target_rotation: if up {
                                QuarterTurn::Turn0
                            } else {
                                QuarterTurn::Turn180
                            },
                            ..c0
                        },
                        p0,
                        dt as int,
                        fnum as int,
                    )
                })
            // Reaching the target offset turns back into a row sweep,
            // toward whichever goal line is on the far side.
            &&& ((h0 == Heading::Up && p0.x >= c0.target_x_coordinate) || (h0 == Heading::Down
                && p0.x < c0.target_x_coordinate) ==> {
                let back = if p0.z > 0 {
                    Heading::Left
                } else {
                    Heading::Right
                };
                (*final(combine), *final(pos)) == drive_phase(
                    Combine {
                        current_rotation_time: 0,
                        velocity: V3 { x: 0i64, y: c0.velocity.y, z: c0.velocity.z },
                        heading: back,
                        target_rotation: heading_turn(back),
                        ..c0
                    },
                    p0,
                    dt as int,
                    fnum as int,
                )
            })
        }),
{
    let mut round_over = false;
    let half: i64 = crate::fx::div_trunc(maze_size, 2);
    match combine.heading {
        Heading::Left | Heading::Right => {
            let crossed = (combine.heading == Heading::Left && pos.z < -half) || (combine.heading
                == Heading::Right && pos.z > half);
            if crossed {
                combine.current_rotation_time = 0;
                let mut unharvested: Vec<usize> = Vec::new();
                let mut i: usize = 0;
                while i < corn.len()
                    invariant
                        i <= corn@.len(),
                        corn@.len() <= 1_000_000_000,
                        unharvested@.len() <= i,
                        forall|j: int|
                            0 <= j < unharvested@.len() ==> (#[trigger] unharvested@[j]) < corn@.len()
                                && !corn@[unharvested@[j] as int].is_harvested,
                        unharvested@.len() == 0 ==> forall|j: int|
                            0 <= j < i ==> (#[trigger] corn@[j]).is_harvested,
                    decreases corn@.len() - i,
                {
                    if !corn[i].is_harvested {
                        unharvested.push(i);
                    }
                    i = i + 1;
                }
                if unharvested.len() == 0 {
                    round_over = true;
                    combine.velocity = V3 { x: combine.velocity.x, y: combine.velocity.y, z: 0 };
                } else {
                    let pick = unharvested[random_below(unharvested.len())];
                    let tx = corn[pick].position.x;
                    combine.velocity = V3 { x: combine.velocity.x, y: combine.velocity.y, z: 0 };
                    combine.target_x_coordinate = tx;
                    if tx > pos.x {
                        combine.target_rotation = QuarterTurn::Turn0;
                        combine.heading = Heading::Up;
                    } else {
                        combine.target_rotation = QuarterTurn::Turn180;
                        combine.heading = Heading::Down;
                    }
                }
            }
        },
        Heading::Up => {
            if pos.x >= combine.target_x_coordinate {
                let back = if pos.z > 0 {
                    Heading::Left
                } else {
                    Heading::Right
                };
                combine.heading = back;
                combine.current_rotation_time = 0;
                combine.velocity = V3 { x: 0, y: combine.velocity.y, z: combine.velocity.z };
                combine.target_rotation = if back == Heading::Left {
                    QuarterTurn::Turn90
                } else {
                    QuarterTurn::Turn270
                };
            }
        },
        Heading::Down => {
            if pos.x < combine.target_x_coordinate {
                let back = if pos.z > 0 {
                    Heading::Left
                } else {
                    Heading::Right
                };
                combine.heading = back;
                combine.current_rotation_time = 0;
                combine.velocity = V3 { x: 0, y: combine.velocity.y, z: combine.velocity.z };
                combine.target_rotation = if back == Heading::Left {
                    QuarterTurn::Turn90
                } else {
                    QuarterTurn::Turn270
                };
            }
        },
    }
    proof {
        lemma_len2_zero_component(old(combine).velocity, combine.velocity);
        assert(len2(combine.velocity) <= old(combine).speed * old(combine).speed);
    }
    let ghost sp: int = combine.speed as int;
    let t = clamp64(combine.current_rotation_time + dt, 0, 3000);
    combine.current_rotation_time = t;
    if t > TURN_TIME {
        proof {
            crate::player::lemma_speed_comp_bounds(combine.velocity, sp);
        }
        let v1 = decay_velocity(combine.velocity, fnum);
        let dir = match combine.heading {
            Heading::Left => V3 { x: 0, y: 0, z: -1000 },
            Heading::Right => V3 { x: 0, y: 0, z: 1000 },
            Heading::Up => V3 { x: 1000, y: 0, z: 0 },
            Heading::Down => V3 { x: -1000, y: 0, z: 0 },
        };
        let va = accelerate(v1, dir, combine.speed, dt);
        let v = clamp_speed(va, combine.speed);
        combine.velocity = v;
        proof {
            crate::player::lemma_speed_comp_bounds(v, sp);
            assert(abs_i(v.x as int) * dt <= 100_000_000_000 && abs_i(v.y as int) * dt
                <= 100_000_000_000 && abs_i(v.z as int) * dt <= 100_000_000_000)
                by (nonlinear_arith)
                requires
                    abs_i(v.x as int) <= sp,
                    abs_i(v.y as int) <= sp,
                    abs_i(v.z as int) <= sp,
                    0 <= dt,
                    sp >= 0,
                    sp * dt <= 90_000_000_000,
            ;
        }
        *pos = advance(*pos, v, dt);
    }
    round_over
}

/// Zeroing one component of a velocity never grows its squared length.
proof fn lemma_len2_zero_component(v0: V3, v1: V3)
    requires
        v1 == v0 || v1 == (V3 { x: v0.x, y: v0.y, z: 0i64 }) || v1 == (V3 {
            x: 0i64,
            y: v0.y,
            z: v0.z,
        }),
    ensures
        len2(v1) <= len2(v0),
{
    assert(sq(v0.x as int) >= 0 && sq(v0.z as int) >= 0 && sq(0int) == 0) by (nonlinear_arith);
}

/// Whether the blade's volume covers a world point (strictly, in the
/// blade's local frame).
pub open spec fn blade_hits(b: CombineBlade, p: V3) -> bool {
    strictly_in_aabb_xz(local_point(b.volume, p), b.volume.local)
}

impl CombineBlade {
    /// The blade's contact test on one world point.
    pub fn hits(&self, p: &V3) -> (r: bool)
        requires
            self.volume.wf(),
            v3_near(*p),
        ensures
            r == blade_hits(*self, *p),
    {
        self.volume.contains_strict(p)
    }
}

/// The corn field after one blade pass: every stalk the blade covers
/// is harvested, everything else about every stalk is kept.
pub open spec fn harvested_corn(b: CombineBlade, corn: Seq<CornStalk>) -> Seq<CornStalk> {
    corn.map(
        |i: int, s: CornStalk|
            CornStalk {
                is_harvested: s.is_harvested || blade_hits(b, s.position),
                position: s.position,
                random: s.random,
            },
    )
}

/// Harvest idempotence: a second blade pass over an already-passed
/// field changes nothing, and harvesting never resurrects a stalk — a
/// stalk's flag goes from false to true exactly once.
pub proof fn lemma_harvest_idempotent(b: CombineBlade, corn: Seq<CornStalk>)
    ensures
        harvested_corn(b, harvested_corn(b, corn)) == harvested_corn(b, corn),
        forall|i: int|
            0 <= i < corn.len() && (#[trigger] corn[i]).is_harvested ==> harvested_corn(
                b,
                corn,
            )[i] == corn[i],
{
    let once = harvested_corn(b, corn);
    let twice = harvested_corn(b, once);
    assert(twice =~= once);
}

/// Cut every unharvested stalk the blade covers, and report which
/// stalks were cut this tick, in index order. A stalk already harvested
/// is never reported again and never changes: harvesting is idempotent,
/// each stalk's flag goes from false to true exactly once.
pub fn handle_corn_collision(blade: &CombineBlade, corn: &mut Vec<CornStalk>) -> (cut: Vec<usize>)
    requires
        blade.volume.wf(),
        forall|i: int| 0 <= i < old(corn)@.len() ==> v3_fits(#[trigger] old(corn)@[i].position),
    ensures
        final(corn)@ == harvested_corn(*blade, old(corn)@),
        final(corn)@.len() == old(corn)@.len(),
        forall|i: int|
            0 <= i < old(corn)@.len() ==> {
                let s0 = old(corn)@[i];
                let s1 = #[trigger] final(corn)@[i];
                s1.position == s0.position && s1.random == s0.random && s1.is_harvested == (
                s0.is_harvested || blade_hits(*blade, s0.position))
            },
        forall|j: int|
            0 <= j < cut@.len() ==> (#[trigger] cut@[j]) < old(corn)@.len() && !old(corn)@[cut@[j]
                as int].is_harvested && blade_hits(*blade, old(corn)@[cut@[j] as int].position),
        forall|i: int|
            0 <= i < old(corn)@.len() && !(#[trigger] old(corn)@[i]).is_harvested && blade_hits(
                *blade,
                old(corn)@[i].position,
            ) ==> cut@.contains(i as usize),
{
    let mut cut: Vec<usize> = Vec::new();
    let mut i: usize = 0;
    while i < corn.len()
        invariant
            blade.volume.wf(),
            i <= corn@.len(),
            corn@.len() == old(corn)@.len(),
            forall|k: int| 0 <= k < old(corn)@.len() ==> v3_fits(#[trigger] old(corn)@[k].position),
            forall|k: int| i <= k < corn@.len() ==> #[trigger] corn@[k] == old(corn)@[k],
            forall|k: int|
                0 <= k < i ==> {
                    let s0 = old(corn)@[k];
                    let s1 = #[trigger] corn@[k];
                    s1.position == s0.position && s1.random == s0.random && s1.is_harvested == (
                    s0.is_harvested || blade_hits(*blade, s0.position))
                },
            forall|j: int|
                0 <= j < cut@.len() ==> (#[trigger] cut@[j]) < i && !old(corn)@[cut@[j]
                    as int].is_harvested && blade_hits(*blade, old(corn)@[cut@[j] as int].position),
            forall|k: int|
                0 <= k < i && !(#[trigger] old(corn)@[k]).is_harvested && blade_hits(
                    *blade,
                    old(corn)@[k].position,
                ) ==> cut@.contains(k as usize),
        decreases corn@.len() - i,
    {
        if !corn[i].is_harvested {
            let p = corn[i].position;
            if blade.hits(&p) {
                let stalk = CornStalk { is_harvested: true, position: p, random: corn[i].random };
                corn.set(i, stalk);
                let ghost cutpre = cut@;
                cut.push(i);
                proof {
                    assert(cut@ == cutpre.push(i));
                    assert(cut@[cut@.len() - 1] == i);
                    assert(cut@.contains(i));
                    assert forall|k: int|
                        0 <= k < i && !(#[trigger] old(corn)@[k]).is_harvested && blade_hits(
                            *blade,
                            old(corn)@[k].position,
                        ) implies cut@.contains(k as usize) by {
                        assert(cutpre.contains(k as usize));
                        let j = choose|j: int| 0 <= j < cutpre.len() && cutpre[j] == k as usize;
                        assert(cut@[j] == k as usize);
                    }
                }
            }
        }
        i = i + 1;
    }
    proof {
        assert(corn@ =~= harvested_corn(*blade, old(corn)@));
    }
    cut
}

/// One tick of blade-contact detection across the cast: a live player
/// in the blade's volume is felled, every grounded enemy in it is
/// reported for a knockback launch (by index), and a landed football
/// in it is popped for a relaunch.
pub fn detect_blade_collisions(
    blade: &CombineBlade,
    player: &Player,
    player_pos: &V3,
    enemies: &Vec<(Enemy, V3)>,
    football: &Football,
    football_pos: &V3,
) -> (r: (bool, Vec<usize>, bool))
    requires
        blade.volume.wf(),
        v3_near(*player_pos),
        v3_near(*football_pos),
        forall|i: int| 0 <= i < enemies@.len() ==> v3_near((#[trigger] enemies@[i]).1),
    ensures
        r.0 == (!player.is_dead && blade_hits(*blade, *player_pos)),
        r.2 == (football.has_landed && blade_hits(*blade, *football_pos)),
        forall|j: int|
            0 <= j < r.1@.len() ==> (#[trigger] r.1@[j]) < enemies@.len()
                && !enemies@[r.1@[j] as int].0.is_launched && blade_hits(
                *blade,
                enemies@[r.1@[j] as int].1,
            ),
        forall|i: int|
            0 <= i < enemies@.len() && !(#[trigger] enemies@[i]).0.is_launched && blade_hits(
                *blade,
                enemies@[i].1,
            ) ==> r.1@.contains(i as usize),
{
    let player_hit = blade_hits_player(blade, player, player_pos);
    let football_hit = blade_hits_football(blade, football, football_pos);
    let mut enemy_hits: Vec<usize> = Vec::new();
    let mut i: usize = 0;
    while i < enemies.len()
        invariant
            blade.volume.wf(),
            i <= enemies@.len(),
            forall|k: int| 0 <= k < enemies@.len() ==> v3_near((#[trigger] enemies@[k]).1),
            forall|j: int|
                0 <= j < enemy_hits@.len() ==> (#[trigger] enemy_hits@[j]) < i
                    && !enemies@[enemy_hits@[j] as int].0.is_launched && blade_hits(
                    *blade,
                    enemies@[enemy_hits@[j] as int].1,
                ),
            forall|k: int|
                0 <= k < i && !(#[trigger] enemies@[k]).0.is_launched && blade_hits(
                    *blade,
                    enemies@[k].1,
                ) ==> enemy_hits@.contains(k as usize),
        decreases enemies@.len() - i,
    {
        if blade_hits_enemy(blade, &enemies[i].0, &enemies[i].1) {
            let ghost pre = enemy_hits@;
            enemy_hits.push(i);
            proof {
                assert(enemy_hits@[enemy_hits@.len() - 1] == i);
                assert(enemy_hits@.contains(i));
                assert forall|k: int|
                    0 <= k < i && !(#[trigger] enemies@[k]).0.is_launched && blade_hits(
                        *blade,
                        enemies@[k].1,
                    ) implies enemy_hits@.contains(k as usize) by {
                    assert(pre.contains(k as usize));
                    let j = choose|j: int| 0 <= j < pre.len() && pre[j] == k as usize;
                    assert(enemy_hits@[j] == k as usize);
                }
            }
        }
        i = i + 1;
    }
    (player_hit, enemy_hits, football_hit)
}

/// The blade only fells a live player: one that is already dead is
/// skipped.
pub fn blade_hits_player(blade: &CombineBlade, player: &Player, pos: &V3) -> (r: bool)
    requires
        blade.volume.wf(),
        v3_near(*pos),
    ensures
        r == (!player.is_dead && blade_hits(*blade, *pos)),
{
    !player.is_dead && blade.hits(pos)
}

/// The blade only launches a grounded enemy: one already flying is
/// skipped.
pub fn blade_hits_enemy(blade: &CombineBlade, enemy: &Enemy, pos: &V3) -> (r: bool)
    requires
        blade.volume.wf(),
        v3_near(*pos),
    ensures
        r == (!enemy.is_launched && blade_hits(*blade, *pos)),
{
    !enemy.is_launched && blade.hits(pos)
}

/// The blade only pops a football that has landed: one still flying is
/// skipped.
pub fn blade_hits_football(blade: &CombineBlade, football: &Football, pos: &V3) -> (r: bool)
    requires
        blade.volume.wf(),
        v3_near(*pos),
    ensures
        r == (football.has_landed && blade_hits(*blade, *pos)),
{
    football.has_landed && blade.hits(pos)
}

} // verus!
