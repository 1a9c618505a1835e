//! Fixed-point scalars and 2D vectors.
//!
//! A length is held as an `i64` count of `1 / SCALE` pixels, and a time as an
//! `i64` count of `1 / SCALE` frames. Every coordinate stays within
//! `[-COORD_LIMIT, COORD_LIMIT]`: a move that would leave that range saturates
//! at its edge.
use vstd::prelude::*;
use vstd::math::abs;

verus! {

/// Fixed-point units per pixel (and per frame of time).
pub const SCALE: i64 = 1024;

/// The largest magnitude of a coordinate, in fixed-point units.
pub const COORD_LIMIT: i64 = 0x100_0000;

/// A 2D vector in fixed-point units.
#[derive(Clone, Copy, Debug, PartialEq, Eq, Structural)]
pub struct Vec2 {
    pub x: i64,
    pub y: i64,
}

/// A coordinate within the representable range.
pub open spec fn coord_ok(v: int) -> bool {
    -COORD_LIMIT <= v <= COORD_LIMIT
}

/// `v`, saturated at the edges of the representable range.
pub open spec fn clamp_coord(v: int) -> int {
    if v < -COORD_LIMIT {
        -COORD_LIMIT as int
    } else if v > COORD_LIMIT {
        COORD_LIMIT as int
    } else {
        v
    }
}

/// `a / d` rounded toward zero.
pub open spec fn div_trunc(a: int, d: int) -> int {
    if a >= 0 {
        a / d
    } else {
        -((-a) / d)
    }
}

/// `r` is the square root of `s`, rounded up.
pub open spec fn is_ceil_sqrt(s: int, r: int) -> bool {
    r >= 0 && r * r >= s && (r == 0 || (r - 1) * (r - 1) < s)
}

/// The square root of `s >= 0`, rounded up.
pub open spec fn ceil_sqrt(s: int) -> int {
    choose|r: int| #[trigger] is_ceil_sqrt(s, r)
}

/// The squared length of the vector `(dx, dy)`.
pub open spec fn len_sq(dx: int, dy: int) -> int {
    dx * dx + dy * dy
}

impl Vec2 {
    pub open spec fn wf(self) -> bool {
        coord_ok(self.x as int) && coord_ok(self.y as int)
    }

    /// The zero vector.
    pub fn zero() -> (r: Vec2)
        ensures
            r.x == 0 && r.y == 0,
    {
        Vec2 { x: 0, y: 0 }
    }

    /// The vector `(x, y)`.
    pub fn new(x: i64, y: i64) -> (r: Vec2)
        ensures
            r.x == x && r.y == y,
    {
        Vec2 { x, y }
    }
}

pub proof fn lemma_square_monotone(a: int, b: int)
    requires
        0 <= a <= b,
    ensures
        a * a <= b * b,
{
    assert(a * a <= b * b) by (nonlinear_arith)
        requires
            0 <= a <= b,
    ;
}

proof fn lemma_ceil_sqrt_unique(s: int, r1: int, r2: int)
    requires
        is_ceil_sqrt(s, r1),
        is_ceil_sqrt(s, r2),
    ensures
        r1 == r2,
{
    if r1 < r2 {
        lemma_square_monotone(r1, r2 - 1);
    } else if r2 < r1 {
        lemma_square_monotone(r2, r1 - 1);
    }
}

proof fn lemma_ceil_sqrt_exists(s: int)
    requires
        s >= 0,
    ensures
        exists|r: int| #[trigger] is_ceil_sqrt(s, r),
    decreases s,
{
    if s == 0 {
        assert(is_ceil_sqrt(0, 0));
    } else {
        lemma_ceil_sqrt_exists(s - 1);
        let r = choose|r: int| #[trigger] is_ceil_sqrt(s - 1, r);
        if r * r >= s {
            assert(is_ceil_sqrt(s, r));
        } else {
            assert((r + 1) * (r + 1) == r * r + 2 * r + 1) by (nonlinear_arith);
            assert(is_ceil_sqrt(s, r + 1));
        }
    }
}

/// `ceil_sqrt(s)` is the rounded-up square root of `s`.
pub proof fn lemma_ceil_sqrt(s: int)
    requires
        s >= 0,
    ensures
        is_ceil_sqrt(s, ceil_sqrt(s)),
        s > 0 ==> ceil_sqrt(s) > 0,
{
    lemma_ceil_sqrt_exists(s);
}

proof fn lemma_div_nonneg(a: int, d: int)
    requires
        a >= 0,
        d > 0,
    ensures
        0 <= a / d <= a,
        (a / d) * d <= a,
{
    let q = a / d;
    let m = a % d;
    vstd::arithmetic::div_mod::lemma_fundamental_div_mod(a, d);
    assert(0 <= q <= a && q * d <= a) by (nonlinear_arith)
        requires
            a == d * q + m,
            0 <= m < d,
            a >= 0,
    ;
}

/// Rounding toward zero keeps the sign and shrinks the magnitude.
pub proof fn lemma_div_trunc_bound(a: int, d: int)
    requires
        d > 0,
    ensures
        a >= 0 ==> 0 <= div_trunc(a, d) <= a && div_trunc(a, d) * d <= a,
        a < 0 ==> a <= div_trunc(a, d) <= 0 && div_trunc(a, d) * d >= a,
        abs(div_trunc(a, d)) * d <= abs(a),
        abs(div_trunc(a, d)) <= abs(a),
{
    if a >= 0 {
        lemma_div_nonneg(a, d);
    } else {
        lemma_div_nonneg(-a, d);
        assert(div_trunc(a, d) * d == -(((-a) / d) * d)) by (nonlinear_arith)
            requires
                div_trunc(a, d) == -((-a) / d),
        ;
    }
}

/// Below `b * b`, the rounded-up square root is at most `b`.
pub proof fn lemma_ceil_sqrt_le(s: int, b: int)
    requires
        0 <= s < b * b,
        b >= 0,
    ensures
        ceil_sqrt(s) <= b,
{
    lemma_ceil_sqrt(s);
    let r = ceil_sqrt(s);
    if r > b {
        lemma_square_monotone(b, r - 1);
    }
}

/// The rounded-up square root of `s`, by bisection.
pub fn ceil_sqrt_exec(s: u64) -> (r: u64)
    requires
        s <= 0x10_0000_0000_0000,
    ensures
        r as int == ceil_sqrt(s as int),
        r <= 0x400_0000,
{
    // is_ceil_sqrt(s, hi) holds at hi, and fails below lo
    let mut lo: u64 = 0;
    let mut hi: u64 = 0x400_0000;
    assert(0x400_0000 * 0x400_0000 == 0x10_0000_0000_0000) by (nonlinear_arith);
    while lo < hi
        invariant
            lo <= hi <= 0x400_0000,
            hi * hi >= s,
            lo == 0 || (lo - 1) * (lo - 1) < s,
        decreases hi - lo,
    {
        let mid: u64 = lo + (hi - lo) / 2;
        assert(mid * mid <= 0x10_0000_0000_0000) by (nonlinear_arith)
            requires
                mid <= 0x400_0000,
        ;
        if mid * mid >= s {
            hi = mid;
        } else {
            lo = mid + 1;
        }
    }
    proof {
        lemma_ceil_sqrt(s as int);
        lemma_ceil_sqrt_unique(s as int, lo as int, ceil_sqrt(s as int));
    }
    lo
}

/// `a / d` rounded toward zero.
pub fn div_trunc_exec(a: i128, d: i128) -> (r: i128)
    requires
        d > 0,
        a > i128::MIN,
    ensures
        r as int == div_trunc(a as int, d as int),
{
    if a >= 0 {
        a / d
    } else {
        -((-a) / d)
    }
}

/// `v`, saturated at the edges of the representable range.
pub fn clamp_coord_exec(v: i128) -> (r: i64)
    ensures
        r as int == clamp_coord(v as int),
{
    if v < -(COORD_LIMIT as i128) {
        -COORD_LIMIT
    } else if v > COORD_LIMIT as i128 {
        COORD_LIMIT
    } else {
        v as i64
    }
}

} // verus!
