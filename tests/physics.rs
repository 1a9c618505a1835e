use verlet::fixed::ceil_sqrt_exec;
use verlet::object::{CHANNEL_END, CHANNEL_MIN};
use verlet::world::{
    CENTER_X, CENTER_Y, CHAIN_PARTICLES, CHAIN_RADIUS, CHAIN_SPACING, CHAIN_Y, CONSTRAINT_RADIUS,
    GRAVITY, LAST_ANCHOR, LEFT_ANCHOR_X, RIGHT_ANCHOR_X,
};
use verlet::{generate_chain_links, generate_objects, ChainLink, Master, Vec2, VerletObject, COORD_LIMIT, SCALE};

fn px(v: i64) -> i64 {
    v * SCALE
}

fn at_rest(x: i64, y: i64, radius: i64) -> VerletObject {
    VerletObject::new(Vec2 { x, y }, radius)
}

fn world(objects: Vec<VerletObject>, chain_links: Vec<ChainLink>) -> Master {
    Master { objects, chain_links }
}

fn chain_world() -> Master {
    world(generate_objects(), generate_chain_links())
}

fn dist_sq(a: Vec2, b: Vec2) -> i64 {
    let dx = a.x - b.x;
    let dy = a.y - b.y;
    dx * dx + dy * dy
}

#[test]
fn update_position_keeps_velocity() {
    let mut o = at_rest(px(100), px(100), px(10));
    o.last_position = Vec2 { x: px(97), y: px(102) };
    o.update_position(SCALE / 4);
    assert_eq!(o.position, Vec2 { x: px(103), y: px(98) });
    assert_eq!(o.last_position, Vec2 { x: px(100), y: px(100) });
    assert_eq!(o.acceleration, Vec2 { x: 0, y: 0 });
}

#[test]
fn update_position_adds_acceleration_times_delta_squared() {
    let mut o = at_rest(px(100), px(100), px(10));
    o.accelerate(Vec2 { x: px(2), y: -px(3) });
    o.update_position(SCALE / 2);
    // a quarter of the acceleration for half a frame
    assert_eq!(o.position, Vec2 { x: px(100) + 512, y: px(100) - 768 });
    assert_eq!(o.acceleration, Vec2 { x: 0, y: 0 });
}

#[test]
fn update_position_saturates_at_the_limit() {
    let mut o = at_rest(COORD_LIMIT - 10, 0, 0);
    o.last_position = Vec2 { x: COORD_LIMIT - 30, y: 0 };
    o.update_position(SCALE);
    assert_eq!(o.position.x, COORD_LIMIT);
}

#[test]
fn accelerate_adds() {
    let mut o = at_rest(0, 0, px(10));
    o.accelerate(Vec2 { x: 5, y: 7 });
    o.accelerate(Vec2 { x: -2, y: 1 });
    assert_eq!(o.acceleration, Vec2 { x: 3, y: 8 });
}

#[test]
fn new_is_at_rest_with_a_random_colour() {
    for _ in 0..50 {
        let o = at_rest(px(3), px(4), px(12));
        assert_eq!(o.position, Vec2 { x: px(3), y: px(4) });
        assert_eq!(o.last_position, o.position);
        assert_eq!(o.acceleration, Vec2 { x: 0, y: 0 });
        assert_eq!(o.radius, px(12));
        for c in [o.color.r, o.color.g, o.color.b] {
            assert!(CHANNEL_MIN <= c && c < CHANNEL_END);
        }
        assert_eq!(o.color.a, 255);
    }
}

#[test]
fn gravity_then_one_frame_moves_by_gravity() {
    let mut m = world(vec![at_rest(CENTER_X, CENTER_Y, px(10)), at_rest(px(100), px(50), px(20))], vec![]);
    m.apply_gravity();
    m.update_positions(SCALE);
    assert_eq!(m.objects[0].position, Vec2 { x: CENTER_X, y: CENTER_Y + GRAVITY });
    assert_eq!(m.objects[1].position, Vec2 { x: px(100), y: px(50) + GRAVITY });
}

#[test]
fn constraint_moves_onto_the_boundary() {
    let mut m = world(
        vec![
            at_rest(CENTER_X + px(400), CENTER_Y, px(10)),
            at_rest(CENTER_X + px(300), CENTER_Y + px(400), px(10)),
            at_rest(CENTER_X + px(100), CENTER_Y - px(50), px(10)),
        ],
        vec![],
    );
    m.apply_constraint();
    assert_eq!(m.objects[0].position, Vec2 { x: CENTER_X + px(290), y: CENTER_Y });
    assert_eq!(m.objects[1].position, Vec2 { x: CENTER_X + px(174), y: CENTER_Y + px(232) });
    assert_eq!(m.objects[2].position, Vec2 { x: CENTER_X + px(100), y: CENTER_Y - px(50) });
    // the velocity is not touched
    assert_eq!(m.objects[0].last_position, Vec2 { x: CENTER_X + px(400), y: CENTER_Y });
}

#[test]
fn constraint_keeps_every_particle_inside() {
    let mut objects = vec![];
    for k in 0..40i64 {
        let x = CENTER_X + (k * 7919 % 1400 - 700) * SCALE + k * 13;
        let y = CENTER_Y + (k * 104729 % 1000 - 500) * SCALE - k * 29;
        objects.push(at_rest(x, y, px(10 + k % 30)));
    }
    let mut m = world(objects, vec![]);
    m.apply_constraint();
    for o in &m.objects {
        let t = CONSTRAINT_RADIUS - o.radius;
        assert!(dist_sq(o.position, Vec2 { x: CENTER_X, y: CENTER_Y }) <= t * t);
    }
}

#[test]
fn constraint_leaves_the_centre_alone() {
    let mut m = world(vec![at_rest(CENTER_X, CENTER_Y, CONSTRAINT_RADIUS + px(5))], vec![]);
    m.apply_constraint();
    assert_eq!(m.objects[0].position, Vec2 { x: CENTER_X, y: CENTER_Y });
}

#[test]
fn constraint_on_a_particle_wider_than_the_boundary() {
    let mut m = world(vec![at_rest(CENTER_X + px(10), CENTER_Y, CONSTRAINT_RADIUS + px(20))], vec![]);
    m.apply_constraint();
    assert_eq!(m.objects[0].position, Vec2 { x: CENTER_X - px(20), y: CENTER_Y });
}

#[test]
fn collision_pushes_two_particles_apart() {
    let x = CENTER_X;
    let mut m = world(vec![at_rest(x, CENTER_Y, px(10)), at_rest(x + px(10), CENTER_Y, px(10))], vec![]);
    m.solve_collisions();
    assert_eq!(m.objects[0].position, Vec2 { x: x - px(5), y: CENTER_Y });
    assert_eq!(m.objects[1].position, Vec2 { x: x + px(15), y: CENTER_Y });
}

#[test]
fn collision_never_brings_a_pair_closer() {
    let cases = [(px(3), px(4), px(10), px(8)), (-px(7), px(1), px(20), px(5)), (1, 0, px(1), px(1)), (px(30), -px(20), px(25), px(30))];
    for (dx, dy, r0, r1) in cases {
        let a = at_rest(CENTER_X, CENTER_Y, r0);
        let b = at_rest(CENTER_X + dx, CENTER_Y + dy, r1);
        let before = dist_sq(a.position, b.position);
        assert!(before < (r0 + r1) * (r0 + r1));
        let mut m = world(vec![a, b], vec![]);
        m.solve_collisions();
        assert!(dist_sq(m.objects[0].position, m.objects[1].position) >= before);
    }
}

#[test]
fn collision_visits_both_orders() {
    // the second visit of the pair works on the corrected positions
    let mut m = world(vec![at_rest(0, 0, 1000), at_rest(3, 4, 1000)], vec![]);
    m.solve_collisions();
    assert!(dist_sq(m.objects[0].position, m.objects[1].position) >= 1999 * 1999);
}

#[test]
fn collision_leaves_separate_and_coinciding_particles() {
    let mut m = world(
        vec![at_rest(px(100), px(100), px(10)), at_rest(px(130), px(100), px(10)), at_rest(px(300), px(300), px(10)), at_rest(px(300), px(300), px(10))],
        vec![],
    );
    m.solve_collisions();
    assert_eq!(m.objects[0].position, Vec2 { x: px(100), y: px(100) });
    assert_eq!(m.objects[1].position, Vec2 { x: px(130), y: px(100) });
    assert_eq!(m.objects[2].position, Vec2 { x: px(300), y: px(300) });
    assert_eq!(m.objects[3].position, Vec2 { x: px(300), y: px(300) });
}

#[test]
fn chain_link_pulls_ends_to_the_target() {
    let mut m = world(
        vec![at_rest(px(100), px(100), px(10)), at_rest(px(140), px(100), px(10))],
        vec![ChainLink { a: 0, b: 1, target_distance: px(30) }],
    );
    m.apply_chain_links();
    assert_eq!(m.objects[0].position, Vec2 { x: px(105), y: px(100) });
    assert_eq!(m.objects[1].position, Vec2 { x: px(135), y: px(100) });
}

#[test]
fn chain_link_pushes_ends_to_the_target() {
    let mut m = world(
        vec![at_rest(px(100), px(100), px(10)), at_rest(px(100), px(120), px(10))],
        vec![ChainLink { a: 1, b: 0, target_distance: px(30) }],
    );
    m.apply_chain_links();
    assert_eq!(m.objects[0].position, Vec2 { x: px(100), y: px(95) });
    assert_eq!(m.objects[1].position, Vec2 { x: px(100), y: px(125) });
}

#[test]
fn chain_link_leaves_coinciding_ends() {
    let mut m = world(
        vec![at_rest(px(100), px(100), px(10)), at_rest(px(100), px(100), px(10))],
        vec![ChainLink { a: 0, b: 1, target_distance: px(30) }, ChainLink { a: 1, b: 1, target_distance: px(30) }],
    );
    m.apply_chain_links();
    assert_eq!(m.objects[0].position, Vec2 { x: px(100), y: px(100) });
    assert_eq!(m.objects[1].position, Vec2 { x: px(100), y: px(100) });
}

#[test]
fn generated_chain_is_a_line_between_the_anchors() {
    let objects = generate_objects();
    assert_eq!(objects.len(), CHAIN_PARTICLES);
    for (k, o) in objects.iter().enumerate() {
        assert_eq!(o.position, Vec2 { x: LEFT_ANCHOR_X + k as i64 * CHAIN_SPACING, y: CHAIN_Y });
        assert_eq!(o.last_position, o.position);
        assert_eq!(o.radius, CHAIN_RADIUS);
    }
    assert_eq!(objects[LAST_ANCHOR].position, Vec2 { x: RIGHT_ANCHOR_X, y: CHAIN_Y });
    assert_eq!(CHAIN_Y, px(400));
    assert_eq!(LEFT_ANCHOR_X, px(270));
    let links = generate_chain_links();
    assert_eq!(links.len(), CHAIN_PARTICLES - 1);
    for (k, l) in links.iter().enumerate() {
        assert_eq!(*l, ChainLink { a: k, b: k + 1, target_distance: px(30) });
    }
}

#[test]
fn one_frame_sags_the_chain_and_keeps_the_anchors() {
    let mut m = chain_world();
    let before: Vec<Vec2> = m.objects.iter().map(|o| o.position).collect();
    m.update(SCALE);
    assert_eq!(m.objects[0].position, before[0]);
    assert_eq!(m.objects[LAST_ANCHOR].position, before[LAST_ANCHOR]);
    for k in 1..LAST_ANCHOR {
        assert!(m.objects[k].position.y > before[k].y, "particle {} did not sag", k);
    }
}

#[test]
fn anchors_stay_pinned_every_frame() {
    let mut m = chain_world();
    for frame in 0..120 {
        if frame % 10 == 0 {
            m.spawn(Vec2 { x: CENTER_X + px(180), y: CENTER_Y }, px(10 + frame as i64 % 30));
        }
        m.update(SCALE);
        assert_eq!(m.objects[0].position, Vec2 { x: LEFT_ANCHOR_X, y: CHAIN_Y });
        assert_eq!(m.objects[LAST_ANCHOR].position, Vec2 { x: RIGHT_ANCHOR_X, y: CHAIN_Y });
    }
}

#[test]
fn anchors_are_reset_with_their_colour() {
    let mut m = chain_world();
    let colour = m.objects[0].color;
    m.objects[0].radius = px(25);
    m.objects[0].last_position = Vec2 { x: px(10), y: px(10) };
    m.update(SCALE);
    assert_eq!(m.objects[0].color, colour);
    assert_eq!(m.objects[0].radius, CHAIN_RADIUS);
    assert_eq!(m.objects[0].last_position, Vec2 { x: LEFT_ANCHOR_X, y: CHAIN_Y });
}

#[test]
fn chain_holds_near_its_spacing() {
    let mut m = chain_world();
    for _ in 0..200 {
        m.update(SCALE);
        for l in &m.chain_links {
            let d = ceil_sqrt_exec(dist_sq(m.objects[l.a].position, m.objects[l.b].position) as u64) as i64;
            assert!((d - l.target_distance).abs() * 5 < l.target_distance, "link {}-{}: {}", l.a, l.b, d);
        }
    }
}

#[test]
fn spawn_appends_a_particle_at_rest() {
    let mut m = chain_world();
    m.spawn(Vec2 { x: px(660), y: px(300) }, px(33));
    assert_eq!(m.objects.len(), CHAIN_PARTICLES + 1);
    let o = m.objects[CHAIN_PARTICLES];
    assert_eq!(o.position, Vec2 { x: px(660), y: px(300) });
    assert_eq!(o.last_position, o.position);
    assert_eq!(o.radius, px(33));
    assert_eq!(m.chain_links.len(), CHAIN_PARTICLES - 1);
}

#[test]
fn ceil_sqrt_rounds_up() {
    assert_eq!(ceil_sqrt_exec(0), 0);
    assert_eq!(ceil_sqrt_exec(1), 1);
    assert_eq!(ceil_sqrt_exec(2), 2);
    assert_eq!(ceil_sqrt_exec(16), 4);
    assert_eq!(ceil_sqrt_exec(17), 5);
    assert_eq!(ceil_sqrt_exec(0x10_0000_0000_0000), 0x400_0000);
}
