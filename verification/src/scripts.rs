//! Exact integer geometry for movement: integer square roots, truncating
//! division, and the wall-sliding velocity adjustment. All reasoning is over
//! squared Euclidean norms, so no rounding step can make a player faster.

use vstd::prelude::*;
use vstd::arithmetic::div_mod::{lemma_div_nonincreasing, lemma_div_of0, lemma_remainder_lower};
use crate::components::{
    coord_ok, line_ok, velocity_within, Collision, CollisionLine, PlayerCollision, Position,
    Velocity, COORD_LIMIT, SPEED_LIMIT,
};

verus! {

/// `r` is the integer square root of `n`, rounded down.
pub open spec fn is_sqrt_floor(n: int, r: int) -> bool {
    &&& 0 <= r
    &&& r * r <= n
    &&& n < (r + 1) * (r + 1)
}

/// The integer square root of `n`, rounded down.
pub closed spec fn sqrt_floor(n: int) -> int
    recommends
        n >= 0,
{
    choose|r: int| is_sqrt_floor(n, r)
}

/// The integer square root of `n`, rounded up.
pub open spec fn sqrt_ceil(n: int) -> int
    recommends
        n >= 0,
{
    if sqrt_floor(n) * sqrt_floor(n) == n {
        sqrt_floor(n)
    } else {
        sqrt_floor(n) + 1
    }
}

/// The quotient of `a` and `b` rounded toward zero, as Rust's integer
/// division computes it.
pub open spec fn div_trunc(a: int, b: int) -> int
    recommends
        b > 0,
{
    if a >= 0 {
        a / b
    } else {
        -((-a) / b)
    }
}

/// A number has at most one rounded-down square root.
pub proof fn lemma_sqrt_floor_unique(n: int, r1: int, r2: int)
    requires
        is_sqrt_floor(n, r1),
        is_sqrt_floor(n, r2),
    ensures
        r1 == r2,
{
    if r1 < r2 {
        assert(false) by (nonlinear_arith)
            requires
                0 <= r1 < r2,
                n < (r1 + 1) * (r1 + 1),
                r2 * r2 <= n,
        ;
    }
    if r2 < r1 {
        assert(false) by (nonlinear_arith)
            requires
                0 <= r2 < r1,
                n < (r2 + 1) * (r2 + 1),
                r1 * r1 <= n,
        ;
    }
}

/// A witness pins down `sqrt_floor`.
pub proof fn lemma_sqrt_floor_is(n: int, r: int)
    requires
        is_sqrt_floor(n, r),
    ensures
        sqrt_floor(n) == r,
{
    assert(exists|x: int| is_sqrt_floor(n, x));
    lemma_sqrt_floor_unique(n, sqrt_floor(n), r);
}

/// If a square is bounded by a square, the root's magnitude is bounded.
pub proof fn lemma_abs_square(a: int, b: int)
    requires
        a * a <= b * b,
        b >= 0,
    ensures
        -b <= a <= b,
{
    assert(-b <= a <= b) by (nonlinear_arith)
        requires
            a * a <= b * b,
            b >= 0,
    ;
}

/// Truncating division shrinks the square of the scaled quotient below the
/// square of the dividend.
pub proof fn lemma_div_trunc_sq(a: int, b: int)
    requires
        b > 0,
    ensures
        div_trunc(a, b) * div_trunc(a, b) * (b * b) <= a * a,
{
    let m = if a >= 0 { a } else { -a };
    let q = m / b;
    lemma_remainder_lower(m, b);
    assert(0 <= q * b <= m) by {
        assert(q >= 0) by (nonlinear_arith)
            requires
                m >= 0,
                b > 0,
                q == m / b,
        ;
        assert(q * b >= 0) by (nonlinear_arith)
            requires
                q >= 0,
                b > 0,
        ;
    }
    assert((q * b) * (q * b) <= m * m) by (nonlinear_arith)
        requires
            0 <= q * b <= m,
    ;
    assert(q * q * (b * b) == (q * b) * (q * b)) by (nonlinear_arith);
    assert(m * m == a * a) by (nonlinear_arith)
        requires
            m == if a >= 0 { a } else { -a },
    ;
    assert(div_trunc(a, b) * div_trunc(a, b) == q * q) by (nonlinear_arith)
        requires
            div_trunc(a, b) == if a >= 0 { q } else { -q },
    ;
}

/// Cauchy-Schwarz for integer pairs, by the Lagrange identity.
pub proof fn lemma_cauchy_schwarz(vx: int, vy: int, sx: int, sy: int)
    ensures
        (vx * sx + vy * sy) * (vx * sx + vy * sy) <= (vx * vx + vy * vy) * (sx * sx + sy * sy),
{
    let a = vx * sx;
    let b = vy * sy;
    let c = vx * sy;
    let d = vy * sx;
    assert((a + b) * (a + b) + (c - d) * (c - d) == a * a + b * b + c * c + d * d + 2 * (a * b)
        - 2 * (c * d)) by (nonlinear_arith);
    assert(a * b == c * d) by (nonlinear_arith)
        requires
            a == vx * sx,
            b == vy * sy,
            c == vx * sy,
            d == vy * sx,
    ;
    assert(a * a == (vx * vx) * (sx * sx)) by (nonlinear_arith)
        requires
            a == vx * sx,
    ;
    assert(b * b == (vy * vy) * (sy * sy)) by (nonlinear_arith)
        requires
            b == vy * sy,
    ;
    assert(c * c == (vx * vx) * (sy * sy)) by (nonlinear_arith)
        requires
            c == vx * sy,
    ;
    assert(d * d == (vy * vy) * (sx * sx)) by (nonlinear_arith)
        requires
            d == vy * sx,
    ;
    assert((vx * vx) * (sx * sx) + (vy * vy) * (sy * sy) + (vx * vx) * (sy * sy) + (vy * vy) * (sx
        * sx) == (vx * vx + vy * vy) * (sx * sx + sy * sy)) by (nonlinear_arith);
    assert((c - d) * (c - d) >= 0) by (nonlinear_arith);
}

/// The velocity projected onto the direction of a wall segment, with each
/// component rounded toward zero.
pub open spec fn spec_project(vx: int, vy: int, sx: int, sy: int) -> (int, int)
    recommends
        sx * sx + sy * sy > 0,
{
    let len2 = sx * sx + sy * sy;
    let vt = vx * sx + vy * sy;
    (div_trunc(vt * sx, len2), div_trunc(vt * sy, len2))
}

/// A velocity pointing straight into a wall -- no tangential component --
/// collapses to zero when projected onto the wall's direction.
pub proof fn lemma_head_on_projection_stops(vx: int, vy: int, sx: int, sy: int)
    requires
        sx * sx + sy * sy > 0,
        vx * sx + vy * sy == 0,
    ensures
        spec_project(vx, vy, sx, sy) == (0int, 0int),
{
    let len2 = sx * sx + sy * sy;
    assert((vx * sx + vy * sy) * sx == 0) by (nonlinear_arith)
        requires
            vx * sx + vy * sy == 0,
    ;
    assert((vx * sx + vy * sy) * sy == 0) by (nonlinear_arith)
        requires
            vx * sx + vy * sy == 0,
    ;
    lemma_div_of0(len2);
}

/// Projecting onto the wall direction never increases the squared speed.
pub proof fn lemma_projection_norm(vx: int, vy: int, sx: int, sy: int)
    requires
        sx * sx + sy * sy > 0,
    ensures
        spec_project(vx, vy, sx, sy).0 * spec_project(vx, vy, sx, sy).0 + spec_project(
            vx,
            vy,
            sx,
            sy,
        ).1 * spec_project(vx, vy, sx, sy).1 <= vx * vx + vy * vy,
{
    let len2 = sx * sx + sy * sy;
    let vt = vx * sx + vy * sy;
    let wx = div_trunc(vt * sx, len2);
    let wy = div_trunc(vt * sy, len2);
    let norm = vx * vx + vy * vy;
    lemma_div_trunc_sq(vt * sx, len2);
    lemma_div_trunc_sq(vt * sy, len2);
    lemma_cauchy_schwarz(vx, vy, sx, sy);
    assert((vt * sx) * (vt * sx) + (vt * sy) * (vt * sy) == (vt * vt) * len2) by (nonlinear_arith)
        requires
            len2 == sx * sx + sy * sy,
    ;
    assert((vt * vt) * len2 <= (norm * len2) * len2) by (nonlinear_arith)
        requires
            vt * vt <= norm * len2,
            len2 >= 0,
    ;
    assert((norm * len2) * len2 == norm * (len2 * len2)) by (nonlinear_arith);
    assert((wx * wx + wy * wy) * (len2 * len2) == wx * wx * (len2 * len2) + wy * wy * (len2
        * len2)) by (nonlinear_arith);
    assert(len2 * len2 > 0) by (nonlinear_arith)
        requires
            len2 > 0,
    ;
    assert(wx * wx + wy * wy <= norm) by (nonlinear_arith)
        requires
            (wx * wx + wy * wy) * (len2 * len2) <= norm * (len2 * len2),
            len2 * len2 > 0,
    ;
}

/// Scaling a vector by `speed / l` with `l` at least the vector's length
/// bounds the squared result by the squared speed.
pub proof fn lemma_scaled_norm(dx: int, dy: int, speed: int, l: int)
    requires
        l >= 1,
        dx * dx + dy * dy <= l * l,
        speed >= 0,
    ensures
        div_trunc(dx * speed, l) * div_trunc(dx * speed, l) + div_trunc(dy * speed, l)
            * div_trunc(dy * speed, l) <= speed * speed,
{
    let wx = div_trunc(dx * speed, l);
    let wy = div_trunc(dy * speed, l);
    lemma_div_trunc_sq(dx * speed, l);
    lemma_div_trunc_sq(dy * speed, l);
    assert((dx * speed) * (dx * speed) + (dy * speed) * (dy * speed) == (dx * dx + dy * dy)
        * (speed * speed)) by (nonlinear_arith);
    assert((dx * dx + dy * dy) * (speed * speed) <= (l * l) * (speed * speed))
        by (nonlinear_arith)
        requires
            dx * dx + dy * dy <= l * l,
    ;
    assert((wx * wx + wy * wy) * (l * l) == wx * wx * (l * l) + wy * wy * (l * l))
        by (nonlinear_arith);
    assert((l * l) * (speed * speed) == (speed * speed) * (l * l)) by (nonlinear_arith);
    assert(l * l > 0) by (nonlinear_arith)
        requires
            l >= 1,
    ;
    assert(wx * wx + wy * wy <= speed * speed) by (nonlinear_arith)
        requires
            (wx * wx + wy * wy) * (l * l) <= (speed * speed) * (l * l),
            l * l > 0,
    ;
}

/// Computes the integer square root of `n`, rounded down.
pub fn isqrt_u128(n: u128) -> (r: u64)
    ensures
        is_sqrt_floor(n as int, r as int),
{
    let mut lo: u64 = 0;
    let mut hi: u64 = u64::MAX;
    proof {
        assert((n as int) < ((hi as int) + 1) * ((hi as int) + 1)) by (nonlinear_arith)
            requires
                hi == u64::MAX,
                n <= u128::MAX,
        ;
    }
    while lo < hi
        invariant
            lo <= hi,
            (lo as int) * (lo as int) <= n as int,
            (n as int) < ((hi as int) + 1) * ((hi as int) + 1),
        decreases hi - lo,
    {
        let mid: u64 = lo + (hi - lo) / 2 + 1;
        proof {
            assert((mid as int) * (mid as int) < 0x100000000000000000000000000000000int)
                by (nonlinear_arith)
                requires
                    mid <= 0xffffffffffffffffu64,
            ;
        }
        let msq: u128 = (mid as u128) * (mid as u128);
        if msq <= n {
            lo = mid;
        } else {
            hi = mid - 1;
        }
    }
    lo
}

/// Computes the integer square root of `n`, rounded up.
pub fn isqrt_ceil_u128(n: u128) -> (r: u64)
    requires
        n < 0x40000000000000000000000000000000u128,
    ensures
        r as int == sqrt_ceil(n as int),
        (n as int) <= (r as int) * (r as int),
{
    let f = isqrt_u128(n);
    proof {
        lemma_sqrt_floor_is(n as int, f as int);
        assert((f as int) * (f as int) <= n as int);
        assert(f < 0x8000000000000000u64) by {
            if f >= 0x8000000000000000u64 {
                assert(false) by (nonlinear_arith)
                    requires
                        f as int >= 0x8000000000000000int,
                        (f as int) * (f as int) <= n as int,
                        (n as int) < 0x40000000000000000000000000000000int,
                ;
            }
        }
    }
    let fsq: u128 = (f as u128) * (f as u128);
    if fsq == n {
        f
    } else {
        proof {
            assert((n as int) <= ((f as int) + 1) * ((f as int) + 1)) by (nonlinear_arith)
                requires
                    (n as int) < ((f as int) + 1) * ((f as int) + 1),
            ;
        }
        f + 1
    }
}

/// A product of values with bounded magnitudes has bounded magnitude.
pub proof fn lemma_mul_abs_bound(a: int, b: int, ab: int, bb: int)
    requires
        -ab <= a <= ab,
        -bb <= b <= bb,
        0 <= ab,
        0 <= bb,
    ensures
        -(ab * bb) <= a * b <= ab * bb,
{
    assert(-(ab * bb) <= a * b <= ab * bb) by (nonlinear_arith)
        requires
            -ab <= a <= ab,
            -bb <= b <= bb,
            0 <= ab,
            0 <= bb,
    ;
}

/// Both components of a vector are bounded by its Euclidean norm bound.
pub proof fn lemma_component_bound(vx: int, vy: int, bound: int)
    requires
        vx * vx + vy * vy <= bound * bound,
        bound >= 0,
    ensures
        -bound <= vx <= bound,
        -bound <= vy <= bound,
{
    assert(vx * vx <= bound * bound && vy * vy <= bound * bound) by (nonlinear_arith)
        requires
            vx * vx + vy * vy <= bound * bound,
    ;
    lemma_abs_square(vx, bound);
    lemma_abs_square(vy, bound);
}

/// Divides `a` by `b`, rounding toward zero.
pub fn div_trunc_i128(a: i128, b: i128) -> (r: i128)
    requires
        b > 0,
        a != i128::MIN,
    ensures
        r as int == div_trunc(a as int, b as int),
{
    if a >= 0 {
        let q: u128 = (a as u128) / (b as u128);
        proof {
            lemma_div_nonincreasing(a as int, b as int);
        }
        q as i128
    } else {
        let m: i128 = -a;
        let q: u128 = (m as u128) / (b as u128);
        proof {
            lemma_div_nonincreasing(m as int, b as int);
        }
        -(q as i128)
    }
}

/// One sliding adjustment of a velocity against one wall segment. If the
/// swept collider would end the step overlapping the segment's line (or
/// fully across it) while moving toward it, within the segment's extent,
/// the velocity is replaced by its projection onto the segment's direction;
/// otherwise it is unchanged. All tests compare squared distances scaled by
/// the segment's squared length, so everything stays in integers.
pub open spec fn spec_slide_once(
    px: int,
    py: int,
    vx: int,
    vy: int,
    radius: int,
    line: CollisionLine,
) -> (int, int) {
    let sx = line.x2 - line.x1;
    let sy = line.y2 - line.y1;
    let len2 = sx * sx + sy * sy;
    if len2 == 0 {
        (vx, vy)
    } else {
        let qx = px + vx;
        let qy = py + vy;
        let side_p = sx * (py - line.y1) - sy * (px - line.x1);
        let side_q = sx * (qy - line.y1) - sy * (qx - line.x1);
        let u = sx * (qx - line.x1) + sy * (qy - line.y1);
        let within = 0 <= u && u <= len2;
        let penetrates = side_q * side_q < radius * radius * len2 || side_p * side_q < 0;
        let toward = side_q * side_q < side_p * side_p || side_p * side_q < 0;
        if within && penetrates && toward {
            spec_project(vx, vy, sx, sy)
        } else {
            (vx, vy)
        }
    }
}

/// The velocity after sliding against every segment from index `i` on, in
/// order.
pub open spec fn spec_slide_lines(
    px: int,
    py: int,
    vx: int,
    vy: int,
    radius: int,
    lines: Seq<CollisionLine>,
    i: int,
) -> (int, int)
    decreases lines.len() - i,
{
    if i < 0 || i >= lines.len() {
        (vx, vy)
    } else {
        let w = spec_slide_once(px, py, vx, vy, radius, lines[i]);
        spec_slide_lines(px, py, w.0, w.1, radius, lines, i + 1)
    }
}

/// The velocity after the given number of full sliding passes over all
/// segments.
pub open spec fn spec_slide_passes(
    px: int,
    py: int,
    vx: int,
    vy: int,
    radius: int,
    lines: Seq<CollisionLine>,
    passes: nat,
) -> (int, int)
    decreases passes,
{
    if passes == 0 {
        (vx, vy)
    } else {
        let prev = spec_slide_passes(px, py, vx, vy, radius, lines, (passes - 1) as nat);
        spec_slide_lines(px, py, prev.0, prev.1, radius, lines, 0)
    }
}

/// Applies one sliding adjustment against one wall segment.
fn slide_once(px: i64, py: i64, vx: i64, vy: i64, radius: i64, line: &CollisionLine) -> (r: (
    i64,
    i64,
))
    requires
        coord_ok(px),
        coord_ok(py),
        vx * vx + vy * vy <= SPEED_LIMIT * SPEED_LIMIT,
        0 <= radius <= COORD_LIMIT,
        line_ok(*line),
    ensures
        r.0 as int == spec_slide_once(px as int, py as int, vx as int, vy as int, radius as int, *line).0,
        r.1 as int == spec_slide_once(px as int, py as int, vx as int, vy as int, radius as int, *line).1,
        r.0 * r.0 + r.1 * r.1 <= vx * vx + vy * vy,
{
    proof {
        lemma_component_bound(vx as int, vy as int, SPEED_LIMIT as int);
    }
    let x1 = line.x1 as i128;
    let y1 = line.y1 as i128;
    let sx = line.x2 as i128 - x1;
    let sy = line.y2 as i128 - y1;
    proof {
        lemma_mul_abs_bound(sx as int, sx as int, 0x80000000, 0x80000000);
        lemma_mul_abs_bound(sy as int, sy as int, 0x80000000, 0x80000000);
    }
    let len2 = sx * sx + sy * sy;
    if len2 == 0 {
        return (vx, vy);
    }
    let qx = px as i128 + vx as i128;
    let qy = py as i128 + vy as i128;
    let relpx = px as i128 - x1;
    let relpy = py as i128 - y1;
    let relqx = qx - x1;
    let relqy = qy - y1;
    proof {
        lemma_mul_abs_bound(sx as int, relpy as int, 0x80000000, 0x80000000);
        lemma_mul_abs_bound(sy as int, relpx as int, 0x80000000, 0x80000000);
        lemma_mul_abs_bound(sx as int, relqy as int, 0x80000000, 0x80100000);
        lemma_mul_abs_bound(sy as int, relqx as int, 0x80000000, 0x80100000);
        lemma_mul_abs_bound(sx as int, relqx as int, 0x80000000, 0x80100000);
        lemma_mul_abs_bound(sy as int, relqy as int, 0x80000000, 0x80100000);
    }
    let side_p = sx * relpy - sy * relpx;
    let side_q = sx * relqy - sy * relqx;
    let u = sx * relqx + sy * relqy;
    proof {
        lemma_mul_abs_bound(side_q as int, side_q as int, 0x8010000000000000, 0x8010000000000000);
        lemma_mul_abs_bound(side_p as int, side_p as int, 0x8000000000000000, 0x8000000000000000);
        lemma_mul_abs_bound(side_p as int, side_q as int, 0x8000000000000000, 0x8010000000000000);
        lemma_mul_abs_bound(radius as int, radius as int, 0x40000000, 0x40000000);
        lemma_mul_abs_bound(
            (radius as int) * (radius as int),
            len2 as int,
            0x1000000000000000,
            0x8000000000000000,
        );
    }
    let rr = (radius as i128) * (radius as i128);
    let rrl = rr * len2;
    let sq2 = side_q * side_q;
    let sp2 = side_p * side_p;
    let cross = side_p * side_q;
    let within = 0 <= u && u <= len2;
    let penetrates = sq2 < rrl || cross < 0;
    let toward = sq2 < sp2 || cross < 0;
    if within && penetrates && toward {
        proof {
            lemma_mul_abs_bound(vx as int, sx as int, 0x100000, 0x80000000);
            lemma_mul_abs_bound(vy as int, sy as int, 0x100000, 0x80000000);
        }
        let vt = vx as i128 * sx + vy as i128 * sy;
        proof {
            lemma_mul_abs_bound(vt as int, sx as int, 0x10000000000000, 0x80000000);
            lemma_mul_abs_bound(vt as int, sy as int, 0x10000000000000, 0x80000000);
        }
        let wx = div_trunc_i128(vt * sx, len2);
        let wy = div_trunc_i128(vt * sy, len2);
        proof {
            lemma_projection_norm(vx as int, vy as int, sx as int, sy as int);
            lemma_component_bound(wx as int, wy as int, SPEED_LIMIT as int);
        }
        (wx as i64, wy as i64)
    } else {
        (vx, vy)
    }
}

/// Adjusts a desired velocity by sliding along the static level geometry:
/// each pass applies the per-segment adjustment to every segment in order,
/// so a velocity clipped by one wall can be re-clipped by a second wall it
/// now points into. The result is exactly the fixed-pass fold of the
/// per-segment rule, and it is never faster than the desired velocity.
#[verifier::loop_isolation(false)]
pub fn collision_slide_velocity(
    position: &Position,
    velocity: &Velocity,
    player_collision: &PlayerCollision,
    collision: &Collision,
    passes: u32,
) -> (r: (i64, i64))
    requires
        coord_ok(position.x),
        coord_ok(position.y),
        velocity_within(*velocity, SPEED_LIMIT),
        0 <= player_collision.radius <= COORD_LIMIT,
        forall|i: int|
            0 <= i < collision.collision_lines@.len() ==> line_ok(collision.collision_lines@[i]),
    ensures
        r.0 as int == spec_slide_passes(
            position.x as int,
            position.y as int,
            velocity.x as int,
            velocity.y as int,
            player_collision.radius as int,
            collision.collision_lines@,
            passes as nat,
        ).0,
        r.1 as int == spec_slide_passes(
            position.x as int,
            position.y as int,
            velocity.x as int,
            velocity.y as int,
            player_collision.radius as int,
            collision.collision_lines@,
            passes as nat,
        ).1,
        r.0 * r.0 + r.1 * r.1 <= velocity.x * velocity.x + velocity.y * velocity.y,
{
    let ghost pxi = position.x as int;
    let ghost pyi = position.y as int;
    let ghost vx0 = velocity.x as int;
    let ghost vy0 = velocity.y as int;
    let ghost rad = player_collision.radius as int;
    let ghost lines = collision.collision_lines@;
    let mut cvx = velocity.x;
    let mut cvy = velocity.y;
    let mut p: u32 = 0;
    while p < passes
        invariant
            p <= passes,
            cvx as int == spec_slide_passes(pxi, pyi, vx0, vy0, rad, lines, p as nat).0,
            cvy as int == spec_slide_passes(pxi, pyi, vx0, vy0, rad, lines, p as nat).1,
            cvx * cvx + cvy * cvy <= velocity.x * velocity.x + velocity.y * velocity.y,
        decreases passes - p,
    {
        let ghost pvx = cvx as int;
        let ghost pvy = cvy as int;
        let n = collision.collision_lines.len();
        let mut j: usize = 0;
        while j < n
            invariant
                j <= n,
                spec_slide_lines(pxi, pyi, cvx as int, cvy as int, rad, lines, j as int)
                    == spec_slide_lines(pxi, pyi, pvx, pvy, rad, lines, 0),
                cvx * cvx + cvy * cvy <= velocity.x * velocity.x + velocity.y * velocity.y,
            decreases n - j,
        {
            let w = slide_once(
                position.x,
                position.y,
                cvx,
                cvy,
                player_collision.radius,
                &collision.collision_lines[j],
            );
            cvx = w.0;
            cvy = w.1;
            j = j + 1;
        }
        proof {
            assert(spec_slide_passes(pxi, pyi, vx0, vy0, rad, lines, (p + 1) as nat)
                == spec_slide_lines(pxi, pyi, pvx, pvy, rad, lines, 0));
        }
        p = p + 1;
    }
    (cvx, cvy)
}

} // verus!
