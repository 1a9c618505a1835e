//! The world: particles, chain links, and the passes of one frame.
use vstd::prelude::*;
use crate::fixed::{
    ceil_sqrt, ceil_sqrt_exec, clamp_coord, clamp_coord_exec, div_trunc, div_trunc_exec,
    lemma_ceil_sqrt, lemma_ceil_sqrt_le, lemma_div_trunc_bound, lemma_square_monotone, len_sq,
    Vec2, SCALE,
};
use crate::object::{channel_ok, VerletObject, MAX_DELTA, MAX_RADIUS};
use vstd::math::abs;

verus! {

/// Width of the window, in fixed-point units.
pub const WINDOW_WIDTH: i64 = 960 * SCALE;

/// Height of the window, in fixed-point units.
pub const WINDOW_HEIGHT: i64 = 600 * SCALE;

/// Centre of the circular boundary.
pub const CENTER_X: i64 = 480 * SCALE;

/// Centre of the circular boundary.
pub const CENTER_Y: i64 = 300 * SCALE;

/// Radius of the circular boundary.
pub const CONSTRAINT_RADIUS: i64 = 300 * SCALE;

/// Downward acceleration, in fixed-point units per frame squared.
pub const GRAVITY: i64 = SCALE;

/// Number of substeps in one frame.
pub const PHYSICS_SUBSTEPS: usize = 4;

/// Number of particles in the chain.
pub const CHAIN_PARTICLES: usize = 15;

/// Index of the chain's right anchor; the left one is index 0.
pub const LAST_ANCHOR: usize = 14;

/// Radius of a chain particle.
pub const CHAIN_RADIUS: i64 = 10 * SCALE;

/// Distance between neighbours of the chain.
pub const CHAIN_SPACING: i64 = 30 * SCALE;

/// Height of the chain and of its two anchors.
pub const CHAIN_Y: i64 = CENTER_Y + 100 * SCALE;

/// Horizontal position of the left anchor.
pub const LEFT_ANCHOR_X: i64 = CENTER_X - 210 * SCALE;

/// Horizontal position of the right anchor.
pub const RIGHT_ANCHOR_X: i64 = CENTER_X + 210 * SCALE;

/// The largest target distance of a chain link.
pub const MAX_TARGET: i64 = 0x100_0000;

/// A link that holds particles `a` and `b` at `target_distance`.
#[derive(Clone, Copy, Debug, PartialEq, Eq, Structural)]
pub struct ChainLink {
    pub a: usize,
    pub b: usize,
    pub target_distance: i64,
}

/// The world state: particles, in a stable order, and the links between them.
pub struct Master {
    pub objects: Vec<VerletObject>,
    pub chain_links: Vec<ChainLink>,
}

pub open spec fn objects_wf(ps: Seq<VerletObject>) -> bool {
    forall|k: int| 0 <= k < ps.len() ==> #[trigger] ps[k].wf()
}

pub open spec fn link_wf(l: ChainLink, n: int) -> bool {
    l.a < n && l.b < n && 0 <= l.target_distance <= MAX_TARGET
}

pub open spec fn links_wf(links: Seq<ChainLink>, n: int) -> bool {
    forall|k: int| 0 <= k < links.len() ==> link_wf(#[trigger] links[k], n)
}

/// The gravity vector.
pub open spec fn gravity_vec() -> Vec2 {
    Vec2 { x: 0, y: GRAVITY }
}

/// Every particle after one gravity pass.
pub open spec fn gravity_all(ps: Seq<VerletObject>) -> Seq<VerletObject> {
    ps.map_values(|o: VerletObject| o.accelerated(gravity_vec()))
}

/// Every particle after a Verlet step of length `dt`.
pub open spec fn integrate_all(ps: Seq<VerletObject>, dt: int) -> Seq<VerletObject> {
    ps.map_values(|o: VerletObject| o.integrated(dt))
}

/// The particle after the boundary pass: if it reaches past the circle of
/// radius `CONSTRAINT_RADIUS - radius` around the centre, it is moved onto
/// that circle along the same direction. A particle at the very centre stays.
pub open spec fn constrained(o: VerletObject) -> VerletObject {
    let dx = o.position.x - CENTER_X;
    let dy = o.position.y - CENTER_Y;
    let s = len_sq(dx, dy);
    let t = CONSTRAINT_RADIUS - o.radius;
    if s == 0 || (t >= 0 && s <= t * t) {
        o
    } else {
        let d = ceil_sqrt(s);
        VerletObject {
            position: Vec2 {
                x: clamp_coord(CENTER_X + div_trunc(dx * t, d)) as i64,
                y: clamp_coord(CENTER_Y + div_trunc(dy * t, d)) as i64,
            },
            ..o
        }
    }
}

/// Every particle after the boundary pass.
pub open spec fn constrain_all(ps: Seq<VerletObject>) -> Seq<VerletObject> {
    ps.map_values(|o: VerletObject| constrained(o))
}

/// The particle lies within the boundary, less its own radius.
pub open spec fn inside_boundary(o: VerletObject) -> bool {
    let t = CONSTRAINT_RADIUS - o.radius;
    len_sq(o.position.x - CENTER_X, o.position.y - CENTER_Y) <= t * t
}

proof fn lemma_abs_square(a: int)
    ensures
        a * a == abs(a) * abs(a),
{
    if a < 0 {
        assert((-a) * (-a) == a * a) by (nonlinear_arith);
    }
}

/// A vector scaled by `t / d`, with `d` at least its length, is no longer than `t`.
proof fn lemma_scaled_within(dx: int, dy: int, t: int, d: int, nx: int, ny: int)
    requires
        t >= 0,
        d > 0,
        d * d >= len_sq(dx, dy),
        abs(nx) * d <= abs(dx) * t,
        abs(ny) * d <= abs(dy) * t,
    ensures
        len_sq(nx, ny) <= t * t,
        abs(nx) <= t,
        abs(ny) <= t,
{
    let (ax, ay, bx, by) = (abs(nx), abs(ny), abs(dx), abs(dy));
    lemma_abs_square(nx);
    lemma_abs_square(ny);
    lemma_abs_square(dx);
    lemma_abs_square(dy);
    lemma_square_monotone(ax * d, bx * t);
    lemma_square_monotone(ay * d, by * t);
    assert((ax * d) * (ax * d) == (ax * ax) * (d * d)) by (nonlinear_arith);
    assert((ay * d) * (ay * d) == (ay * ay) * (d * d)) by (nonlinear_arith);
    assert((bx * t) * (bx * t) == (bx * bx) * (t * t)) by (nonlinear_arith);
    assert((by * t) * (by * t) == (by * by) * (t * t)) by (nonlinear_arith);
    assert((ax * ax + ay * ay) * (d * d) == (ax * ax) * (d * d) + (ay * ay) * (d * d))
        by (nonlinear_arith);
    assert((bx * bx + by * by) * (t * t) == (bx * bx) * (t * t) + (by * by) * (t * t))
        by (nonlinear_arith);
    assert((bx * bx + by * by) * (t * t) <= (d * d) * (t * t)) by (nonlinear_arith)
        requires
            bx * bx + by * by <= d * d,
    ;
    assert(ax * ax + ay * ay <= t * t) by (nonlinear_arith)
        requires
            (ax * ax + ay * ay) * (d * d) <= (d * d) * (t * t),
            d > 0,
    ;
    if ax > t {
        assert(ax * ax > t * t) by (nonlinear_arith)
            requires
                ax > t >= 0,
        ;
    }
    if ay > t {
        assert(ay * ay > t * t) by (nonlinear_arith)
            requires
                ay > t >= 0,
        ;
    }
}

/// The boundary pass leaves a particle no wider than the boundary within it.
pub proof fn lemma_constrained_inside(o: VerletObject)
    requires
        o.wf(),
        o.radius <= CONSTRAINT_RADIUS,
    ensures
        inside_boundary(constrained(o)),
{
    let dx = o.position.x - CENTER_X;
    let dy = o.position.y - CENTER_Y;
    let s = len_sq(dx, dy);
    let t = CONSTRAINT_RADIUS - o.radius;
    if s == 0 {
        assert(t * t >= 0) by (nonlinear_arith);
    } else if !(t >= 0 && s <= t * t) {
        let d = ceil_sqrt(s);
        lemma_ceil_sqrt(s);
        let nx = div_trunc(dx * t, d);
        let ny = div_trunc(dy * t, d);
        lemma_div_trunc_bound(dx * t, d);
        lemma_div_trunc_bound(dy * t, d);
        assert(abs(dx * t) == abs(dx) * t) by (nonlinear_arith)
            requires
                t >= 0,
        ;
        assert(abs(dy * t) == abs(dy) * t) by (nonlinear_arith)
            requires
                t >= 0,
        ;
        assert(abs(nx) * d == abs(nx * d)) by (nonlinear_arith)
            requires
                d > 0,
        ;
        assert(abs(ny) * d == abs(ny * d)) by (nonlinear_arith)
            requires
                d > 0,
        ;
        lemma_scaled_within(dx, dy, t, d, nx, ny);
    }
}

/// The boundary pass on one particle.
fn constrain_object(o: VerletObject) -> (r: VerletObject)
    requires
        o.wf(),
    ensures
        r == constrained(o),
        r.wf(),
{
    let dx = o.position.x as i128 - CENTER_X as i128;
    let dy = o.position.y as i128 - CENTER_Y as i128;
    assert(0 <= dx * dx <= 0x4_0000_0000_0000 && 0 <= dy * dy <= 0x4_0000_0000_0000)
        by (nonlinear_arith)
        requires
            -0x200_0000 <= dx <= 0x200_0000,
            -0x200_0000 <= dy <= 0x200_0000,
    ;
    let s = dx * dx + dy * dy;
    let t = CONSTRAINT_RADIUS as i128 - o.radius as i128;
    assert(0 <= t * t <= 0x4_0000_0000_0000) by (nonlinear_arith)
        requires
            -0x200_0000 <= t <= 0x200_0000,
    ;
    if s == 0 || (t >= 0 && s <= t * t) {
        o
    } else {
        let d = ceil_sqrt_exec(s as u64) as i128;
        proof {
            lemma_ceil_sqrt(s as int);
        }
        assert(-0x4_0000_0000_0000 <= dx * t <= 0x4_0000_0000_0000 && -0x4_0000_0000_0000 <= dy
            * t <= 0x4_0000_0000_0000) by (nonlinear_arith)
            requires
                -0x200_0000 <= dx <= 0x200_0000,
                -0x200_0000 <= dy <= 0x200_0000,
                -0x200_0000 <= t <= 0x200_0000,
        ;
        let nx = div_trunc_exec(dx * t, d);
        let ny = div_trunc_exec(dy * t, d);
        proof {
            lemma_div_trunc_bound(dx * t, d as int);
            lemma_div_trunc_bound(dy * t, d as int);
        }
        let x = clamp_coord_exec(CENTER_X as i128 + nx);
        let y = clamp_coord_exec(CENTER_Y as i128 + ny);
        VerletObject { position: Vec2 { x, y }, ..o }
    }
}

/// The particle moved by `(qx, qy)`.
pub open spec fn moved(o: VerletObject, qx: int, qy: int) -> VerletObject {
    VerletObject {
        position: Vec2 {
            x: clamp_coord(o.position.x + qx) as i64,
            y: clamp_coord(o.position.y + qy) as i64,
        },
        ..o
    }
}

/// Particle `i` moved by `(qx, qy)` and particle `j` by the opposite.
pub open spec fn nudge(ps: Seq<VerletObject>, i: int, j: int, qx: int, qy: int) -> Seq<
    VerletObject,
> {
    ps.update(i, moved(ps[i], qx, qy)).update(j, moved(ps[j], -qx, -qy))
}

/// Half of the correction `delta`, along the axis `(ax, ay)` of length `d`.
pub open spec fn half_along(a: int, delta: int, d: int) -> int {
    div_trunc(a * delta, 2 * d)
}

/// The pair `(i, j)` of the collision pass: when the two particles overlap,
/// each is pushed away from the other by half the overlap. Coinciding
/// particles are left as they are.
pub open spec fn collide_pair(ps: Seq<VerletObject>, i: int, j: int) -> Seq<VerletObject> {
    let ax = ps[i].position.x - ps[j].position.x;
    let ay = ps[i].position.y - ps[j].position.y;
    let s = len_sq(ax, ay);
    let sum = ps[i].radius + ps[j].radius;
    if i == j || s == 0 || s >= sum * sum {
        ps
    } else {
        let d = ceil_sqrt(s);
        let delta = sum - d;
        nudge(ps, i, j, half_along(ax, delta, d), half_along(ay, delta, d))
    }
}

/// The pairs `(i, 0)` to `(i, j - 1)` of the collision pass, in order.
pub open spec fn collide_row(ps: Seq<VerletObject>, i: int, j: int) -> Seq<VerletObject>
    decreases j,
{
    if j <= 0 {
        ps
    } else {
        collide_pair(collide_row(ps, i, j - 1), i, j - 1)
    }
}

/// The rows `0` to `i - 1` of the collision pass over `n` particles, in order.
pub open spec fn collide_rows(ps: Seq<VerletObject>, i: int, n: int) -> Seq<VerletObject>
    decreases i,
{
    if i <= 0 {
        ps
    } else {
        collide_row(collide_rows(ps, i - 1, n), i - 1, n)
    }
}

/// Every particle after the collision pass: every ordered pair `(i, j)` of
/// distinct particles, both `(i, j)` and `(j, i)`, in row-major order.
pub open spec fn collide_all(ps: Seq<VerletObject>) -> Seq<VerletObject> {
    collide_rows(ps, ps.len() as int, ps.len() as int)
}

/// The link pass on one link: its two ends are moved, each by half the
/// difference, toward the target distance. Coinciding ends are left as they are.
pub open spec fn link_pair(ps: Seq<VerletObject>, l: ChainLink) -> Seq<VerletObject> {
    let ax = ps[l.a as int].position.x - ps[l.b as int].position.x;
    let ay = ps[l.a as int].position.y - ps[l.b as int].position.y;
    let s = len_sq(ax, ay);
    if s == 0 {
        ps
    } else {
        let d = ceil_sqrt(s);
        let delta = l.target_distance - d;
        nudge(ps, l.a as int, l.b as int, half_along(ax, delta, d), half_along(ay, delta, d))
    }
}

/// The links `0` to `k - 1` of the link pass, in order.
pub open spec fn link_first(ps: Seq<VerletObject>, links: Seq<ChainLink>, k: int) -> Seq<
    VerletObject,
>
    decreases k,
{
    if k <= 0 {
        ps
    } else {
        link_pair(link_first(ps, links, k - 1), links[k - 1])
    }
}

/// Every particle after the link pass.
pub open spec fn link_all(ps: Seq<VerletObject>, links: Seq<ChainLink>) -> Seq<VerletObject> {
    link_first(ps, links, links.len() as int)
}

/// Moves particle `i` by `(qx, qy)` and particle `j` by the opposite.
fn nudge_exec(objects: &mut Vec<VerletObject>, i: usize, j: usize, qx: i128, qy: i128)
    requires
        objects_wf(old(objects)@),
        i < old(objects)@.len(),
        j < old(objects)@.len(),
        i != j,
        -0x10_0000_0000_0000 <= qx <= 0x10_0000_0000_0000,
        -0x10_0000_0000_0000 <= qy <= 0x10_0000_0000_0000,
    ensures
        objects_wf(final(objects)@),
        final(objects)@ == nudge(old(objects)@, i as int, j as int, qx as int, qy as int),
{
    let mut oi = objects[i];
    oi.position = Vec2 {
        x: clamp_coord_exec(oi.position.x as i128 + qx),
        y: clamp_coord_exec(oi.position.y as i128 + qy),
    };
    objects.set(i, oi);
    let mut oj = objects[j];
    oj.position = Vec2 {
        x: clamp_coord_exec(oj.position.x as i128 - qx),
        y: clamp_coord_exec(oj.position.y as i128 - qy),
    };
    objects.set(j, oj);
    assert forall|k: int| 0 <= k < objects@.len() implies #[trigger] objects@[k].wf() by {
        assert(old(objects)@[k].wf());
    }
    assert(objects@ =~= nudge(old(objects)@, i as int, j as int, qx as int, qy as int));
}

/// Pushes particles `i` and `j` apart along their axis `(ax, ay)` by half of
/// `delta` each, given `d`, the axis's rounded-up length.
fn push_along(
    objects: &mut Vec<VerletObject>,
    i: usize,
    j: usize,
    ax: i128,
    ay: i128,
    delta: i128,
    d: i128,
)
    requires
        objects_wf(old(objects)@),
        i < old(objects)@.len(),
        j < old(objects)@.len(),
        i != j,
        -0x200_0000 <= ax <= 0x200_0000,
        -0x200_0000 <= ay <= 0x200_0000,
        -0x800_0000 <= delta <= 0x800_0000,
        0 < d <= 0x400_0000,
    ensures
        objects_wf(final(objects)@),
        final(objects)@ == nudge(
            old(objects)@,
            i as int,
            j as int,
            half_along(ax as int, delta as int, d as int),
            half_along(ay as int, delta as int, d as int),
        ),
{
    assert(-0x10_0000_0000_0000 <= ax * delta <= 0x10_0000_0000_0000 && -0x10_0000_0000_0000
        <= ay * delta <= 0x10_0000_0000_0000) by (nonlinear_arith)
        requires
            -0x200_0000 <= ax <= 0x200_0000,
            -0x200_0000 <= ay <= 0x200_0000,
            -0x800_0000 <= delta <= 0x800_0000,
    ;
    let qx = div_trunc_exec(ax * delta, 2 * d);
    let qy = div_trunc_exec(ay * delta, 2 * d);
    proof {
        lemma_div_trunc_bound(ax * delta, 2 * d);
        lemma_div_trunc_bound(ay * delta, 2 * d);
    }
    nudge_exec(objects, i, j, qx, qy);
}

/// The squared distance between particles `i` and `j`, with the axis from `j` to `i`.
fn axis_between(objects: &Vec<VerletObject>, i: usize, j: usize) -> (r: (i128, i128, i128))
    requires
        objects_wf(objects@),
        i < objects@.len(),
        j < objects@.len(),
    ensures
        r.0 == objects@[i as int].position.x - objects@[j as int].position.x,
        r.1 == objects@[i as int].position.y - objects@[j as int].position.y,
        r.2 == len_sq(r.0 as int, r.1 as int),
        -0x200_0000 <= r.0 <= 0x200_0000,
        -0x200_0000 <= r.1 <= 0x200_0000,
        0 <= r.2 <= 0x8_0000_0000_0000,
{
    assert(objects@[i as int].wf() && objects@[j as int].wf());
    let ax = objects[i].position.x as i128 - objects[j].position.x as i128;
    let ay = objects[i].position.y as i128 - objects[j].position.y as i128;
    assert(0 <= ax * ax <= 0x4_0000_0000_0000 && 0 <= ay * ay <= 0x4_0000_0000_0000)
        by (nonlinear_arith)
        requires
            -0x200_0000 <= ax <= 0x200_0000,
            -0x200_0000 <= ay <= 0x200_0000,
    ;
    (ax, ay, ax * ax + ay * ay)
}

/// One pair `(i, j)` of the collision pass.
fn collide_pair_exec(objects: &mut Vec<VerletObject>, i: usize, j: usize)
    requires
        objects_wf(old(objects)@),
        i < old(objects)@.len(),
        j < old(objects)@.len(),
    ensures
        objects_wf(final(objects)@),
        final(objects)@ == collide_pair(old(objects)@, i as int, j as int),
{
    if i == j {
        return;
    }
    let (ax, ay, s) = axis_between(objects, i, j);
    assert(objects@[i as int].wf() && objects@[j as int].wf());
    let sum = objects[i].radius as i128 + objects[j].radius as i128;
    assert(0 <= sum * sum <= 0x4_0000_0000_0000) by (nonlinear_arith)
        requires
            0 <= sum <= 0x200_0000,
    ;
    if s == 0 || s >= sum * sum {
        return;
    }
    let d = ceil_sqrt_exec(s as u64) as i128;
    proof {
        lemma_ceil_sqrt(s as int);
        lemma_ceil_sqrt_le(s as int, sum as int);
    }
    push_along(objects, i, j, ax, ay, sum - d, d);
}

/// One link of the link pass.
fn link_pair_exec(objects: &mut Vec<VerletObject>, l: ChainLink)
    requires
        objects_wf(old(objects)@),
        link_wf(l, old(objects)@.len() as int),
    ensures
        objects_wf(final(objects)@),
        final(objects)@ == link_pair(old(objects)@, l),
{
    let (ax, ay, s) = axis_between(objects, l.a, l.b);
    if s == 0 {
        return;
    }
    assert(l.a != l.b) by {
        if l.a == l.b {
            assert(len_sq(0, 0) == 0);
        }
    }
    let d = ceil_sqrt_exec(s as u64) as i128;
    proof {
        lemma_ceil_sqrt(s as int);
    }
    push_along(objects, l.a, l.b, ax, ay, l.target_distance as i128 - d, d);
}

/// Where the left end of the chain is held.
pub open spec fn anchor_left() -> Vec2 {
    Vec2 { x: LEFT_ANCHOR_X, y: CHAIN_Y }
}

/// Where the right end of the chain is held.
pub open spec fn anchor_right() -> Vec2 {
    Vec2 { x: RIGHT_ANCHOR_X, y: CHAIN_Y }
}

/// A chain particle at rest at `at`, keeping the colour of `o`.
pub open spec fn pinned(o: VerletObject, at: Vec2) -> VerletObject {
    VerletObject {
        position: at,
        last_position: at,
        acceleration: Vec2 { x: 0, y: 0 },
        radius: CHAIN_RADIUS,
        color: o.color,
    }
}

/// The particles with the two ends of the chain put back at their anchors.
pub open spec fn pin_anchors(ps: Seq<VerletObject>) -> Seq<VerletObject> {
    ps.update(0, pinned(ps[0], anchor_left())).update(
        LAST_ANCHOR as int,
        pinned(ps[LAST_ANCHOR as int], anchor_right()),
    )
}

/// One substep of length `dt`: gravity, the boundary, collisions, the links,
/// the anchors, then integration.
pub open spec fn substep(ps: Seq<VerletObject>, links: Seq<ChainLink>, dt: int) -> Seq<
    VerletObject,
> {
    integrate_all(pin_anchors(link_all(collide_all(constrain_all(gravity_all(ps))), links)), dt)
}

/// `k` substeps of length `dt`.
pub open spec fn substeps(ps: Seq<VerletObject>, links: Seq<ChainLink>, dt: int, k: int) -> Seq<
    VerletObject,
>
    decreases k,
{
    if k <= 0 {
        ps
    } else {
        substep(substeps(ps, links, dt, k - 1), links, dt)
    }
}

/// A particle pinned at rest stays where it is pinned through integration.
proof fn lemma_pinned_stays(o: VerletObject, at: Vec2, dt: int)
    requires
        at.wf(),
    ensures
        pinned(o, at).integrated(dt).position == at,
{
    assert(0int * dt * dt == 0);
    assert(0int / (SCALE * SCALE) == 0);
}

/// A chain particle at rest at `at`, keeping the colour of `o`.
fn pinned_exec(o: &VerletObject, at: Vec2) -> (r: VerletObject)
    ensures
        r == pinned(*o, at),
{
    VerletObject {
        position: at,
        last_position: at,
        acceleration: Vec2::zero(),
        radius: CHAIN_RADIUS,
        color: o.color,
    }
}

/// The particles of the chain, at rest in a horizontal line between the anchors.
pub fn generate_objects() -> (r: Vec<VerletObject>)
    ensures
        r@.len() == CHAIN_PARTICLES,
        objects_wf(r@),
        forall|k: int|
            0 <= k < CHAIN_PARTICLES ==> {
                &&& (#[trigger] r@[k]).position == Vec2 {
                    x: (LEFT_ANCHOR_X + k * CHAIN_SPACING) as i64,
                    y: CHAIN_Y,
                }
                &&& r@[k].last_position == r@[k].position
                &&& r@[k].acceleration == Vec2 { x: 0, y: 0 }
                &&& r@[k].radius == CHAIN_RADIUS
            },
{
    let mut result: Vec<VerletObject> = Vec::new();
    let mut k: usize = 0;
    while k < CHAIN_PARTICLES
        invariant
            0 <= k <= CHAIN_PARTICLES,
            result@.len() == k,
            objects_wf(result@),
            forall|m: int|
                0 <= m < k ==> {
                    &&& (#[trigger] result@[m]).position == Vec2 {
                        x: (LEFT_ANCHOR_X + m * CHAIN_SPACING) as i64,
                        y: CHAIN_Y,
                    }
                    &&& result@[m].last_position == result@[m].position
                    &&& result@[m].acceleration == Vec2 { x: 0, y: 0 }
                    &&& result@[m].radius == CHAIN_RADIUS
                },
        decreases CHAIN_PARTICLES - k,
    {
        let x = LEFT_ANCHOR_X + k as i64 * CHAIN_SPACING;
        let o = VerletObject::new(Vec2::new(x, CHAIN_Y), CHAIN_RADIUS);
        result.push(o);
        k += 1;
    }
    result
}

/// The links between neighbours of the chain, each at `CHAIN_SPACING`.
pub fn generate_chain_links() -> (r: Vec<ChainLink>)
    ensures
        r@.len() == CHAIN_PARTICLES - 1,
        links_wf(r@, CHAIN_PARTICLES as int),
        forall|k: int|
            0 <= k < CHAIN_PARTICLES - 1 ==> #[trigger] r@[k] == (ChainLink {
                a: k as usize,
                b: (k + 1) as usize,
                target_distance: CHAIN_SPACING,
            }),
{
    let mut result: Vec<ChainLink> = Vec::new();
    let mut k: usize = 1;
    while k < CHAIN_PARTICLES
        invariant
            1 <= k <= CHAIN_PARTICLES,
            result@.len() == k - 1,
            forall|m: int|
                0 <= m < k - 1 ==> #[trigger] result@[m] == (ChainLink {
                    a: m as usize,
                    b: (m + 1) as usize,
                    target_distance: CHAIN_SPACING,
                }),
        decreases CHAIN_PARTICLES - k,
    {
        result.push(ChainLink { a: k - 1, b: k, target_distance: CHAIN_SPACING });
        k += 1;
    }
    result
}

impl Master {
    /// Advances the world by one frame of length `delta`, in
    /// `PHYSICS_SUBSTEPS` equal substeps. Both ends of the chain are at their
    /// anchors afterwards.
    pub fn update(&mut self, delta: i64)
        requires
            old(self).wf(),
            old(self).objects@.len() >= CHAIN_PARTICLES,
            0 <= delta <= MAX_DELTA,
        ensures
            final(self).wf(),
            final(self).chain_links == old(self).chain_links,
            final(self).objects@ == substeps(
                old(self).objects@,
                old(self).chain_links@,
                delta as int / PHYSICS_SUBSTEPS as int,
                PHYSICS_SUBSTEPS as int,
            ),
            final(self).objects@[0].position == anchor_left(),
            final(self).objects@[LAST_ANCHOR as int].position == anchor_right(),
    {
        let sub_delta = delta / PHYSICS_SUBSTEPS as i64;
        let left = Vec2::new(LEFT_ANCHOR_X, CHAIN_Y);
        let right = Vec2::new(RIGHT_ANCHOR_X, CHAIN_Y);
        let mut k: usize = 0;
        while k < PHYSICS_SUBSTEPS
            invariant
                0 <= k <= PHYSICS_SUBSTEPS,
                self.wf(),
                self.objects@.len() == old(self).objects@.len() >= CHAIN_PARTICLES,
                self.chain_links == old(self).chain_links,
                sub_delta == delta as int / PHYSICS_SUBSTEPS as int,
                0 <= sub_delta <= MAX_DELTA,
                left == anchor_left(),
                right == anchor_right(),
                self.objects@ == substeps(
                    old(self).objects@,
                    old(self).chain_links@,
                    sub_delta as int,
                    k as int,
                ),
                k > 0 ==> self.objects@[0].position == anchor_left(),
                k > 0 ==> self.objects@[LAST_ANCHOR as int].position == anchor_right(),
            decreases PHYSICS_SUBSTEPS - k,
        {
            self.apply_gravity();
            self.apply_constraint();
            self.solve_collisions();
            self.apply_chain_links();
            let first = pinned_exec(&self.objects[0], left);
            self.objects.set(0, first);
            let last = pinned_exec(&self.objects[LAST_ANCHOR], right);
            self.objects.set(LAST_ANCHOR, last);
            proof {
                lemma_pinned_stays(self.objects@[0], left, sub_delta as int);
                lemma_pinned_stays(self.objects@[LAST_ANCHOR as int], right, sub_delta as int);
            }
            self.update_positions(sub_delta);
            k += 1;
        }
    }

    /// Adds a particle at rest at `position`, with a random colour. It takes
    /// part in the boundary and collision passes only.
    pub fn spawn(&mut self, position: Vec2, radius: i64)
        requires
            old(self).wf(),
            position.wf(),
            0 <= radius <= MAX_RADIUS,
        ensures
            final(self).wf(),
            final(self).chain_links == old(self).chain_links,
            final(self).objects@.len() == old(self).objects@.len() + 1,
            final(self).objects@.drop_last() == old(self).objects@,
            final(self).objects@.last().position == position,
            final(self).objects@.last().last_position == position,
            final(self).objects@.last().acceleration == (Vec2 { x: 0, y: 0 }),
            final(self).objects@.last().radius == radius,
            channel_ok(final(self).objects@.last().color.r),
            channel_ok(final(self).objects@.last().color.g),
            channel_ok(final(self).objects@.last().color.b),
    {
        let o = VerletObject::new(position, radius);
        self.objects.push(o);
        assert(self.objects@.drop_last() =~= old(self).objects@);
    }

    /// Resolves overlaps: every ordered pair of distinct particles, both
    /// `(i, j)` and `(j, i)`, is visited in turn, and overlapping particles
    /// are pushed apart, each by half the overlap.
    pub fn solve_collisions(&mut self)
        requires
            old(self).wf(),
        ensures
            final(self).wf(),
            final(self).chain_links == old(self).chain_links,
            final(self).objects@ == collide_all(old(self).objects@),
            final(self).objects@.len() == old(self).objects@.len(),
    {
        let n = self.objects.len();
        let mut i: usize = 0;
        while i < n
            invariant
                0 <= i <= n == self.objects@.len() == old(self).objects@.len(),
                self.chain_links == old(self).chain_links,
                objects_wf(self.objects@),
                self.objects@ == collide_rows(old(self).objects@, i as int, n as int),
            decreases n - i,
        {
            let mut j: usize = 0;
            while j < n
                invariant
                    0 <= i < n,
                    0 <= j <= n == self.objects@.len(),
                    self.chain_links == old(self).chain_links,
                    objects_wf(self.objects@),
                    self.objects@ == collide_row(
                        collide_rows(old(self).objects@, i as int, n as int),
                        i as int,
                        j as int,
                    ),
                decreases n - j,
            {
                collide_pair_exec(&mut self.objects, i, j);
                j += 1;
            }
            i += 1;
        }
    }

    /// Moves the two ends of every link, in order, toward the link's target distance.
    pub fn apply_chain_links(&mut self)
        requires
            old(self).wf(),
        ensures
            final(self).wf(),
            final(self).chain_links == old(self).chain_links,
            final(self).objects@ == link_all(old(self).objects@, old(self).chain_links@),
            final(self).objects@.len() == old(self).objects@.len(),
    {
        let m = self.chain_links.len();
        let mut k: usize = 0;
        while k < m
            invariant
                0 <= k <= m == self.chain_links@.len(),
                self.objects@.len() == old(self).objects@.len(),
                self.chain_links == old(self).chain_links,
                self.wf(),
                self.objects@ == link_first(old(self).objects@, self.chain_links@, k as int),
            decreases m - k,
        {
            let l = self.chain_links[k];
            link_pair_exec(&mut self.objects, l);
            k += 1;
        }
    }

    /// Moves every particle that reaches past the circular boundary back onto it.
    pub fn apply_constraint(&mut self)
        requires
            old(self).wf(),
        ensures
            final(self).wf(),
            final(self).chain_links == old(self).chain_links,
            final(self).objects@ == constrain_all(old(self).objects@),
            forall|k: int|
                0 <= k < final(self).objects@.len() && #[trigger] final(self).objects@[k].radius
                    <= CONSTRAINT_RADIUS ==> inside_boundary(final(self).objects@[k]),
    {
        let n = self.objects.len();
        let mut k: usize = 0;
        while k < n
            invariant
                0 <= k <= n == self.objects@.len() == old(self).objects@.len(),
                self.chain_links == old(self).chain_links,
                objects_wf(self.objects@),
                forall|m: int|
                    0 <= m < k ==> self.objects@[m] == constrained(#[trigger] old(self).objects@[m]),
                forall|m: int| k <= m < n ==> self.objects@[m] == #[trigger] old(self).objects@[m],
            decreases n - k,
        {
            let o = constrain_object(self.objects[k]);
            self.objects.set(k, o);
            k += 1;
        }
        assert(self.objects@ =~= constrain_all(old(self).objects@));
        assert forall|k: int|
            0 <= k < self.objects@.len() && #[trigger] self.objects@[k].radius
                <= CONSTRAINT_RADIUS implies inside_boundary(self.objects@[k]) by {
            lemma_constrained_inside(old(self).objects@[k]);
        }
    }

    pub open spec fn wf(&self) -> bool {
        objects_wf(self.objects@) && links_wf(self.chain_links@, self.objects@.len() as int)
    }

    /// Adds gravity to the acceleration of every particle.
    pub fn apply_gravity(&mut self)
        requires
            old(self).wf(),
        ensures
            final(self).wf(),
            final(self).chain_links == old(self).chain_links,
            final(self).objects@ == gravity_all(old(self).objects@),
    {
        let n = self.objects.len();
        let g = Vec2::new(0, GRAVITY);
        let mut k: usize = 0;
        while k < n
            invariant
                0 <= k <= n == self.objects@.len() == old(self).objects@.len(),
                self.chain_links == old(self).chain_links,
                g == gravity_vec(),
                objects_wf(self.objects@),
                forall|m: int|
                    0 <= m < k ==> self.objects@[m] == #[trigger] old(
                        self,
                    ).objects@[m].accelerated(gravity_vec()),
                forall|m: int| k <= m < n ==> self.objects@[m] == #[trigger] old(self).objects@[m],
            decreases n - k,
        {
            let mut o = self.objects[k];
            o.accelerate(g);
            self.objects.set(k, o);
            k += 1;
        }
        assert(self.objects@ =~= gravity_all(old(self).objects@));
    }

    /// Advances every particle by `delta`.
    pub fn update_positions(&mut self, delta: i64)
        requires
            old(self).wf(),
            0 <= delta <= MAX_DELTA,
        ensures
            final(self).wf(),
            final(self).chain_links == old(self).chain_links,
            final(self).objects@ == integrate_all(old(self).objects@, delta as int),
    {
        let n = self.objects.len();
        let mut k: usize = 0;
        while k < n
            invariant
                0 <= k <= n == self.objects@.len() == old(self).objects@.len(),
                self.chain_links == old(self).chain_links,
                0 <= delta <= MAX_DELTA,
                objects_wf(self.objects@),
                forall|m: int|
                    0 <= m < k ==> self.objects@[m] == #[trigger] old(self).objects@[m].integrated(
                        delta as int,
                    ),
                forall|m: int| k <= m < n ==> self.objects@[m] == #[trigger] old(self).objects@[m],
            decreases n - k,
        {
            let mut o = self.objects[k];
            o.update_position(delta);
            self.objects.set(k, o);
            k += 1;
        }
        assert(self.objects@ =~= integrate_all(old(self).objects@, delta as int));
    }
}

} // verus!
