//! Properties that relate several passes of the simulation.
use vstd::prelude::*;
use vstd::math::abs;
use crate::fixed::{
    ceil_sqrt, clamp_coord, coord_ok, lemma_ceil_sqrt, lemma_ceil_sqrt_le,
    lemma_div_trunc_bound, lemma_square_monotone, len_sq, Vec2, SCALE,
};
use crate::object::VerletObject;
use crate::world::{
    collide_all, collide_pair, collide_row, collide_rows, gravity_all, half_along,
    integrate_all, moved, objects_wf, GRAVITY,
};

verus! {

/// A particle at rest with no acceleration, given gravity and then one
/// Verlet step of one frame, moves by exactly the gravity vector.
pub proof fn law_gravity_step(ps: Seq<VerletObject>, k: int)
    requires
        objects_wf(ps),
        0 <= k < ps.len(),
        ps[k].last_position == ps[k].position,
        ps[k].acceleration == (Vec2 { x: 0, y: 0 }),
        coord_ok(ps[k].position.y + GRAVITY),
    ensures
        integrate_all(gravity_all(ps), SCALE as int)[k].position == (Vec2 {
            x: ps[k].position.x,
            y: (ps[k].position.y + GRAVITY) as i64,
        }),
{
    assert(ps[k].wf());
    assert(GRAVITY * SCALE * SCALE == GRAVITY * (SCALE * SCALE)) by (nonlinear_arith);
    vstd::arithmetic::div_mod::lemma_div_by_multiple(GRAVITY as int, SCALE * SCALE);
    assert(0int * SCALE * SCALE == 0);
    assert(0int / (SCALE * SCALE) == 0);
}

/// Pushing two coordinates apart, each by `q` of the sign of their
/// difference, does not bring them closer, even where they saturate.
proof fn lemma_spread_coord(x0: int, x1: int, q: int)
    requires
        coord_ok(x0),
        coord_ok(x1),
        x0 >= x1 ==> q >= 0,
        x0 <= x1 ==> q <= 0,
    ensures
        abs(clamp_coord(x0 + q) - clamp_coord(x1 - q)) >= abs(x0 - x1),
{
}

/// `half_along(a, delta, d)` has the sign of `a` for a non-negative `delta`.
proof fn lemma_half_along_sign(a: int, delta: int, d: int)
    requires
        delta >= 0,
        d > 0,
    ensures
        a >= 0 ==> half_along(a, delta, d) >= 0,
        a <= 0 ==> half_along(a, delta, d) <= 0,
{
    lemma_div_trunc_bound(a * delta, 2 * d);
    assert(a >= 0 ==> a * delta >= 0) by (nonlinear_arith)
        requires
            delta >= 0,
    ;
    assert(a <= 0 ==> a * delta <= 0) by (nonlinear_arith)
        requires
            delta >= 0,
    ;
}

/// The pair `(i, j)` of the collision pass keeps particles well formed and
/// widens the gap between `i` and `j` in each coordinate.
proof fn lemma_pair_spreads(ps: Seq<VerletObject>, i: int, j: int)
    requires
        objects_wf(ps),
        0 <= i < ps.len(),
        0 <= j < ps.len(),
        i != j,
    ensures
        collide_pair(ps, i, j).len() == ps.len(),
        objects_wf(collide_pair(ps, i, j)),
        abs(collide_pair(ps, i, j)[i].position.x - collide_pair(ps, i, j)[j].position.x) >= abs(
            ps[i].position.x - ps[j].position.x,
        ),
        abs(collide_pair(ps, i, j)[i].position.y - collide_pair(ps, i, j)[j].position.y) >= abs(
            ps[i].position.y - ps[j].position.y,
        ),
{
    assert(ps[i].wf() && ps[j].wf());
    let ax = ps[i].position.x - ps[j].position.x;
    let ay = ps[i].position.y - ps[j].position.y;
    let s = len_sq(ax, ay);
    let sum = ps[i].radius + ps[j].radius;
    let r = collide_pair(ps, i, j);
    if !(s == 0 || s >= sum * sum) {
        assert(s >= 0) by (nonlinear_arith)
            requires
                s == ax * ax + ay * ay,
        ;
        lemma_ceil_sqrt(s);
        lemma_ceil_sqrt_le(s, sum);
        let d = ceil_sqrt(s);
        let delta = sum - d;
        lemma_half_along_sign(ax, delta, d);
        lemma_half_along_sign(ay, delta, d);
        let qx = half_along(ax, delta, d);
        let qy = half_along(ay, delta, d);
        lemma_spread_coord(ps[i].position.x as int, ps[j].position.x as int, qx);
        lemma_spread_coord(ps[i].position.y as int, ps[j].position.y as int, qy);
        assert(r[i] == moved(ps[i], qx, qy));
        assert(r[j] == moved(ps[j], -qx, -qy));
        assert forall|k: int| 0 <= k < r.len() implies #[trigger] r[k].wf() by {
            assert(ps[k].wf());
        }
    }
}

/// `len_sq` grows with the magnitude of each coordinate.
proof fn lemma_len_sq_monotone(a: int, b: int, c: int, e: int)
    requires
        abs(c) >= abs(a),
        abs(e) >= abs(b),
    ensures
        len_sq(c, e) >= len_sq(a, b),
{
    assert(a * a == abs(a) * abs(a) && b * b == abs(b) * abs(b) && c * c == abs(c) * abs(c) && e
        * e == abs(e) * abs(e)) by (nonlinear_arith);
    lemma_square_monotone(abs(a) as int, abs(c) as int);
    lemma_square_monotone(abs(b) as int, abs(e) as int);
}

/// In a world of two particles, the collision pass never brings overlapping
/// particles closer together.
pub proof fn law_collision_separates(ps: Seq<VerletObject>)
    requires
        objects_wf(ps),
        ps.len() == 2,
        len_sq(ps[0].position.x - ps[1].position.x, ps[0].position.y - ps[1].position.y) < (
        ps[0].radius + ps[1].radius) * (ps[0].radius + ps[1].radius),
    ensures
        collide_all(ps).len() == 2,
        len_sq(
            collide_all(ps)[0].position.x - collide_all(ps)[1].position.x,
            collide_all(ps)[0].position.y - collide_all(ps)[1].position.y,
        ) >= len_sq(ps[0].position.x - ps[1].position.x, ps[0].position.y - ps[1].position.y),
{
    let once = collide_pair(ps, 0, 1);
    assert(collide_pair(ps, 0, 0) == ps);
    assert(collide_row(ps, 0, 0) == ps);
    assert(collide_row(ps, 0, 1) == ps);
    assert(collide_row(ps, 0, 2) == once);
    assert(collide_rows(ps, 0, 2) == ps);
    assert(collide_rows(ps, 1, 2) == once);
    lemma_pair_spreads(ps, 0, 1);
    let twice = collide_pair(once, 1, 0);
    lemma_pair_spreads(once, 1, 0);
    assert(collide_row(once, 1, 0) == once);
    assert(collide_row(once, 1, 1) == twice);
    assert(collide_pair(twice, 1, 1) == twice);
    assert(collide_row(once, 1, 2) == twice);
    assert(collide_rows(ps, 2, 2) == twice);
    assert(collide_all(ps) == twice);
    let (x0, y0) = (ps[0].position.x - ps[1].position.x, ps[0].position.y - ps[1].position.y);
    let (x1, y1) = (once[0].position.x - once[1].position.x, once[0].position.y - once[1].position.y);
    let (x2, y2) = (twice[0].position.x - twice[1].position.x, twice[0].position.y - twice[1].position.y);
    assert(abs(x2) >= abs(x1) && abs(y2) >= abs(y1));
    lemma_len_sq_monotone(x0, y0, x2, y2);
}

} // verus!
