use corn_maze::collision::{
    Collidable, Collidables, DynamicCollidable, QuarterTurn, WorldAabb, BOTTOM_END, LEFT_END,
    RIGHT_END, TOP_END,
};
use corn_maze::vec3::V3;

fn boxed(min_x: i64, min_z: i64, max_x: i64, max_z: i64) -> Collidable {
    Collidable {
        aabb: WorldAabb {
            min: V3 { x: min_x, y: 0, z: min_z },
            max: V3 { x: max_x, y: 0, z: max_z },
        },
    }
}

fn registry(statics: Vec<Collidable>, dynamics: Vec<DynamicCollidable>) -> Collidables {
    Collidables { statics, dynamics }
}

#[test]
fn out_of_bounds_is_collidable_even_with_empty_registry() {
    let cs = Collidables::new();
    assert!(cs.is_in_collidable(&V3 { x: 0, y: 0, z: LEFT_END }));
    assert!(cs.is_in_collidable(&V3 { x: 0, y: 0, z: RIGHT_END }));
    assert!(cs.is_in_collidable(&V3 { x: BOTTOM_END, y: 0, z: 0 }));
    assert!(cs.is_in_collidable(&V3 { x: TOP_END, y: 0, z: 0 }));
    assert!(!cs.is_in_collidable(&V3 { x: 0, y: 0, z: 0 }));
}

#[test]
fn static_box_membership_is_two_dimensional() {
    let cs = registry(vec![boxed(-1000, -1000, 1000, 1000)], Vec::new());
    // Y is ignored: a point far above the box still counts.
    assert!(cs.is_in_collidable(&V3 { x: 0, y: 50_000, z: 0 }));
    assert!(cs.is_in_collidable(&V3 { x: 1000, y: 0, z: -1000 }));
    assert!(!cs.is_in_collidable(&V3 { x: 1001, y: 0, z: 0 }));
}

#[test]
fn dynamic_box_follows_translation_and_quarter_turn() {
    // Local box is long on X: reaches 3 units forward, 1 wide.
    let d = DynamicCollidable {
        local: WorldAabb {
            min: V3 { x: 0, y: 0, z: -500 },
            max: V3 { x: 3000, y: 0, z: 500 },
        },
        position: V3 { x: 10_000, y: 0, z: 10_000 },
        turn: QuarterTurn::Turn90,
    };
    // A quarter turn about Y points the local +X axis at world -Z.
    assert!(d.contains(&V3 { x: 10_000, y: 0, z: 8_000 }));
    assert!(!d.contains(&V3 { x: 12_000, y: 0, z: 10_000 }));
    let upright = DynamicCollidable { turn: QuarterTurn::Turn0, ..d };
    assert!(upright.contains(&V3 { x: 12_000, y: 0, z: 10_000 }));
    assert!(!upright.contains(&V3 { x: 10_000, y: 0, z: 8_000 }));
}

#[test]
fn boundary_checks_apply_even_with_an_empty_registry() {
    // The edges are enforced unconditionally: with nothing registered a
    // move past an edge is still rejected and bounced.
    let cs = Collidables::new();
    let cur = V3 { x: 0, y: 0, z: 0 };
    let mut new = V3 { x: 0, y: 0, z: LEFT_END - 1000 };
    let mut vel = V3 { x: 0, y: 0, z: -5000 };
    cs.fit_in(&cur, &mut new, &mut vel, 16);
    assert_eq!(new, cur);
    assert_eq!(vel, V3 { x: 0, y: 0, z: 10_000 });
}

#[test]
fn clear_move_passes_with_an_empty_registry() {
    let cs = Collidables::new();
    let cur = V3 { x: 0, y: 0, z: 0 };
    let mut new = V3 { x: 500, y: 0, z: -700 };
    let mut vel = V3 { x: 3000, y: 0, z: -4000 };
    cs.fit_in(&cur, &mut new, &mut vel, 16);
    assert_eq!(new, V3 { x: 500, y: 0, z: -700 });
    assert_eq!(vel, V3 { x: 3000, y: 0, z: -4000 });
}

#[test]
fn slide_never_lands_inside_a_neighboring_box() {
    // Two boxes with a narrow gap; the move enters the first, and the
    // pushback would land inside the second: the resolver rejects the
    // move back to the current position instead.
    let cs = registry(
        vec![boxed(3_000, 5_000, 9_000, 6_000), boxed(10_050, 5_000, 12_000, 6_000)],
        Vec::new(),
    );
    let cur = V3 { x: 10_000, y: 0, z: 5_500 };
    let mut new = V3 { x: 8_000, y: 0, z: 5_500 };
    let mut vel = V3 { x: -5_000, y: 0, z: 0 };
    cs.fit_in(&cur, &mut new, &mut vel, 16);
    assert_eq!(new, cur);
    for c in cs.statics.iter() {
        let strictly_inside = new.x > c.aabb.min.x && new.x < c.aabb.max.x && new.z > c.aabb.min.z
            && new.z < c.aabb.max.z;
        assert!(!strictly_inside);
    }
}

#[test]
fn boundary_crossing_reverts_and_reflects_doubled() {
    let cs = registry(vec![boxed(5_000, 5_000, 6_000, 6_000)], Vec::new());
    let cur = V3 { x: 0, y: 0, z: LEFT_END + 500 };
    let mut new = V3 { x: 0, y: 0, z: LEFT_END - 100 };
    let mut vel = V3 { x: 777, y: 0, z: -4000 };
    cs.fit_in(&cur, &mut new, &mut vel, 16);
    assert_eq!(new, cur);
    assert_eq!(vel, V3 { x: 777, y: 0, z: 8000 });
}

#[test]
fn boundary_bounce_has_minimum_push() {
    let cs = registry(vec![boxed(5_000, 5_000, 6_000, 6_000)], Vec::new());
    let cur = V3 { x: TOP_END - 500, y: 0, z: 0 };
    let mut new = V3 { x: TOP_END + 100, y: 0, z: 0 };
    // Slower than one unit per second: the bounce still pushes at two.
    let mut vel = V3 { x: 300, y: 0, z: 0 };
    cs.fit_in(&cur, &mut new, &mut vel, 16);
    assert_eq!(new, cur);
    assert_eq!(vel, V3 { x: -2000, y: 0, z: 0 });
}

#[test]
fn dynamic_hit_bounces_back_doubled() {
    let d = DynamicCollidable {
        local: WorldAabb {
            min: V3 { x: -1000, y: 0, z: -1000 },
            max: V3 { x: 1000, y: 0, z: 1000 },
        },
        position: V3 { x: 2_000, y: 0, z: 0 },
        turn: QuarterTurn::Turn0,
    };
    let cs = registry(Vec::new(), vec![d]);
    let cur = V3 { x: 4_000, y: 0, z: 0 };
    let mut new = V3 { x: 2_500, y: 0, z: 0 };
    let mut vel = V3 { x: -3000, y: 100, z: 200 };
    cs.fit_in(&cur, &mut new, &mut vel, 16);
    assert_eq!(new, cur);
    assert_eq!(vel, V3 { x: 6000, y: -200, z: -400 });
}

#[test]
fn slide_pushes_back_out_of_an_entered_box() {
    // Boundary containment's partner: a move from outside into a
    // static box resolves to a position not inside that box.
    let b = boxed(-2000, -2000, 2000, 2000);
    let cs = registry(vec![b], Vec::new());
    let cur = V3 { x: 3_000, y: 0, z: 0 };
    let mut new = V3 { x: 1_500, y: 0, z: 0 };
    let mut vel = V3 { x: -20_000, y: 0, z: 4_000 };
    cs.fit_in(&cur, &mut new, &mut vel, 16);
    // Pushed back across the crossed face, never inside the box.
    assert!(new.x >= 2000);
    assert_eq!(new.z, cur.z);
    // Crossed-axis velocity zeroed, perpendicular boosted by the
    // zeroed amount (signed like the perpendicular component).
    assert_eq!(vel.x, 0);
    assert_eq!(vel.z, 4_000 + (-20_000));
    assert!(!cs.is_in_collidable(&new));
}

#[test]
fn slide_from_the_low_z_side_zeroes_z_and_boosts_x() {
    let b = boxed(-2000, -2000, 2000, 2000);
    let cs = registry(vec![b], Vec::new());
    let cur = V3 { x: 0, y: 0, z: -3_000 };
    let mut new = V3 { x: 0, y: 0, z: -1_000 };
    let mut vel = V3 { x: -500, y: 0, z: 9_000 };
    cs.fit_in(&cur, &mut new, &mut vel, 16);
    assert!(new.z <= -2000);
    assert_eq!(vel.z, 0);
    assert_eq!(vel.x, -500 + -9_000);
}

// Boundary containment, driven as the property prescribes: many
// velocities aimed at each edge from just inside it never resolve to a
// position past that edge.
#[test]
fn containment_holds_near_every_edge() {
    let cs = registry(vec![boxed(5_000, 5_000, 6_000, 6_000)], Vec::new());
    let mut seed: i64 = 0x2545F491;
    let mut next = || {
        seed = seed.wrapping_mul(6364136223846793005).wrapping_add(1442695040888963407);
        (seed >> 33) % 50_000
    };
    let starts = [
        V3 { x: 0, y: 0, z: LEFT_END + 900 },
        V3 { x: 0, y: 0, z: RIGHT_END - 900 },
        V3 { x: BOTTOM_END + 900, y: 0, z: 0 },
        V3 { x: TOP_END - 900, y: 0, z: 0 },
    ];
    for cur in starts {
        for _ in 0..64 {
            let vel0 = V3 { x: next(), y: 0, z: next() };
            let mut new = V3 {
                x: cur.x + vel0.x * 16 / 1000,
                y: 0,
                z: cur.z + vel0.z * 16 / 1000,
            };
            let mut vel = vel0;
            cs.fit_in(&cur, &mut new, &mut vel, 16);
            assert!(new.x >= BOTTOM_END && new.x <= TOP_END, "x escaped: {:?}", new);
            assert!(new.z >= LEFT_END && new.z <= RIGHT_END, "z escaped: {:?}", new);
        }
    }
}

#[test]
fn clear_move_passes_untouched() {
    let cs = registry(vec![boxed(5_000, 5_000, 6_000, 6_000)], Vec::new());
    let cur = V3 { x: 0, y: 0, z: 0 };
    let mut new = V3 { x: 100, y: 0, z: 100 };
    let mut vel = V3 { x: 6000, y: 0, z: 6000 };
    cs.fit_in(&cur, &mut new, &mut vel, 16);
    assert_eq!(new, V3 { x: 100, y: 0, z: 100 });
    assert_eq!(vel, V3 { x: 6000, y: 0, z: 6000 });
}
