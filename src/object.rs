//! A single point mass, advanced by position Verlet integration.
use vstd::prelude::*;
use crate::fixed::{
    clamp_coord, clamp_coord_exec, coord_ok, div_trunc, div_trunc_exec, lemma_div_trunc_bound,
    Vec2, SCALE,
};

verus! {

/// The largest radius a particle may have, in fixed-point units.
pub const MAX_RADIUS: i64 = 0x100_0000;

/// The longest time step a particle may be advanced by, in fixed-point frames.
pub const MAX_DELTA: i64 = 0x100_0000;

/// The smallest value of a random colour channel.
pub const CHANNEL_MIN: u8 = 51;

/// The bound above every random colour channel.
pub const CHANNEL_END: u8 = 255;

/// A display colour; it plays no part in the physics.
#[derive(Clone, Copy, Debug, PartialEq, Eq, Structural)]
pub struct Color {
    pub r: u8,
    pub g: u8,
    pub b: u8,
    pub a: u8,
}

/// A particle. Its velocity is `position - last_position`.
#[derive(Clone, Copy, Debug, PartialEq, Eq, Structural)]
pub struct VerletObject {
    pub position: Vec2,
    pub last_position: Vec2,
    pub acceleration: Vec2,
    pub radius: i64,
    pub color: Color,
}

/// One coordinate after a Verlet step of length `dt`.
pub open spec fn verlet_coord(p: int, last: int, acc: int, dt: int) -> int {
    clamp_coord(p + (p - last) + div_trunc(acc * dt * dt, SCALE * SCALE))
}

/// A random channel value drawn by `VerletObject::new`.
pub open spec fn channel_ok(c: u8) -> bool {
    CHANNEL_MIN <= c < CHANNEL_END
}

/// Relies on macroquad::rand::gen_range (quad-rand's `RandomRange` for `u8`):
/// a value in `[low, high)` for `low < high`.
#[verifier::external_body]
fn gen_range_u8(low: u8, high: u8) -> (r: u8)
    requires
        low < high,
    ensures
        low <= r < high,
{
    macroquad::rand::gen_range(low, high)
}

impl VerletObject {
    pub open spec fn wf(self) -> bool {
        &&& self.position.wf()
        &&& self.last_position.wf()
        &&& self.acceleration.wf()
        &&& 0 <= self.radius <= MAX_RADIUS
    }

    /// The particle after a Verlet step of length `dt`.
    pub open spec fn integrated(self, dt: int) -> VerletObject {
        VerletObject {
            position: Vec2 {
                x: verlet_coord(
                    self.position.x as int,
                    self.last_position.x as int,
                    self.acceleration.x as int,
                    dt,
                ) as i64,
                y: verlet_coord(
                    self.position.y as int,
                    self.last_position.y as int,
                    self.acceleration.y as int,
                    dt,
                ) as i64,
            },
            last_position: self.position,
            acceleration: Vec2 { x: 0, y: 0 },
            ..self
        }
    }

    /// The particle has no acceleration, and keeping its velocity for one
    /// more step keeps it within the representable range.
    pub open spec fn drifts(self) -> bool {
        &&& self.acceleration == (Vec2 { x: 0, y: 0 })
        &&& coord_ok(2 * self.position.x - self.last_position.x)
        &&& coord_ok(2 * self.position.y - self.last_position.y)
    }

    /// `position + (position - last_position)`.
    pub open spec fn drift_position(self) -> Vec2 {
        Vec2 {
            x: (2 * self.position.x - self.last_position.x) as i64,
            y: (2 * self.position.y - self.last_position.y) as i64,
        }
    }

    /// The particle with `acc` added to its acceleration.
    pub open spec fn accelerated(self, acc: Vec2) -> VerletObject {
        VerletObject {
            acceleration: Vec2 {
                x: clamp_coord(self.acceleration.x + acc.x) as i64,
                y: clamp_coord(self.acceleration.y + acc.y) as i64,
            },
            ..self
        }
    }

    /// A particle at rest at `position`, with a random colour.
    pub fn new(position: Vec2, radius: i64) -> (r: VerletObject)
        requires
            position.wf(),
            0 <= radius <= MAX_RADIUS,
        ensures
            r.wf(),
            r.position == position,
            r.last_position == position,
            r.acceleration == (Vec2 { x: 0, y: 0 }),
            r.radius == radius,
            channel_ok(r.color.r) && channel_ok(r.color.g) && channel_ok(r.color.b),
            r.color.a == 255,
    {
        let r = gen_range_u8(CHANNEL_MIN, CHANNEL_END);
        let g = gen_range_u8(CHANNEL_MIN, CHANNEL_END);
        let b = gen_range_u8(CHANNEL_MIN, CHANNEL_END);
        VerletObject {
            position,
            last_position: position,
            acceleration: Vec2::zero(),
            radius,
            color: Color { r, g, b, a: 255 },
        }
    }

    /// Advances the particle by `delta`: it keeps its velocity, gains
    /// `acceleration * delta * delta`, and its acceleration is reset.
    pub fn update_position(&mut self, delta: i64)
        requires
            old(self).wf(),
            0 <= delta <= MAX_DELTA,
        ensures
            final(self).wf(),
            *final(self) == old(self).integrated(delta as int),
            old(self).drifts() ==> final(self).position == old(self).drift_position(),
    {
        let x = verlet_coord_exec(self.position.x, self.last_position.x, self.acceleration.x, delta);
        let y = verlet_coord_exec(self.position.y, self.last_position.y, self.acceleration.y, delta);
        self.last_position = self.position;
        self.position = Vec2 { x, y };
        self.acceleration = Vec2::zero();
    }

    /// Adds `acc` to the particle's acceleration.
    pub fn accelerate(&mut self, acc: Vec2)
        requires
            old(self).wf(),
            acc.wf(),
        ensures
            final(self).wf(),
            *final(self) == old(self).accelerated(acc),
    {
        let x = clamp_coord_exec(self.acceleration.x as i128 + acc.x as i128);
        let y = clamp_coord_exec(self.acceleration.y as i128 + acc.y as i128);
        self.acceleration = Vec2 { x, y };
    }
}

fn verlet_coord_exec(p: i64, last: i64, acc: i64, dt: i64) -> (r: i64)
    requires
        coord_ok(p as int),
        coord_ok(last as int),
        coord_ok(acc as int),
        0 <= dt <= MAX_DELTA,
    ensures
        r as int == verlet_coord(p as int, last as int, acc as int, dt as int),
        coord_ok(r as int),
{
    let a = acc as i128;
    let t = dt as i128;
    assert(-0x1_0000_0000_0000 <= a * t <= 0x1_0000_0000_0000) by (nonlinear_arith)
        requires
            -0x100_0000 <= a <= 0x100_0000,
            0 <= t <= 0x100_0000,
    ;
    let at = a * t;
    assert(-0x100_0000_0000_0000_0000 <= at * t <= 0x100_0000_0000_0000_0000) by (nonlinear_arith)
        requires
            -0x1_0000_0000_0000 <= at <= 0x1_0000_0000_0000,
            0 <= t <= 0x100_0000,
    ;
    let q = div_trunc_exec(at * t, (SCALE as i128) * (SCALE as i128));
    proof {
        lemma_div_trunc_bound(at * t, SCALE * SCALE);
    }
    clamp_coord_exec(p as i128 + (p as i128 - last as i128) + q)
}

} // verus!
