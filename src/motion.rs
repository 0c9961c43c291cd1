//! Bounded-speed pursuit on the rink plane.
use vstd::prelude::*;

verus! {

/// Rink length along the x axis.
pub const RINK_LENGTH: i64 = 2000;

/// Rink width along the y axis.
pub const RINK_WIDTH: i64 = 850;

/// The longest distance a skater covers in one tick.
pub const MAX_STEP: i64 = 15;

/// Largest squared distance between two points of the rink.
pub const MAX_DIST_SQ: i64 = 5_000_000;

/// A root bound: `SQRT_HI * SQRT_HI >= MAX_DIST_SQ`.
pub const SQRT_HI: i64 = 2237;

pub open spec fn in_rink(x: int, y: int) -> bool {
    0 <= x <= RINK_LENGTH && 0 <= y <= RINK_WIDTH
}

pub open spec fn dist_sq(dx: int, dy: int) -> int {
    dx * dx + dy * dy
}

/// `d` is the least non-negative integer whose square reaches `s`.
pub open spec fn is_ceil_sqrt(d: int, s: int) -> bool {
    d >= 0 && d * d >= s && (d == 0 || (d - 1) * (d - 1) < s)
}

pub open spec fn abs(v: int) -> int {
    if v < 0 { -v } else { v }
}

/// One coordinate of a capped step: the offset `delta` scaled by
/// `MAX_STEP / d`, rounded toward zero.
pub open spec fn step_component(delta: int, d: int) -> int {
    if delta >= 0 {
        delta * MAX_STEP / d
    } else {
        -((-delta) * MAX_STEP / d)
    }
}

/// The smallest `d` with `d * d >= s`, by bisection.
pub fn ceil_sqrt(s: i64) -> (d: i64)
    requires
        0 <= s <= MAX_DIST_SQ,
    ensures
        is_ceil_sqrt(d as int, s as int),
        d <= SQRT_HI,
{
    if s == 0 {
        return 0;
    }
    let mut lo: i64 = 0;
    let mut hi: i64 = SQRT_HI;
    assert(SQRT_HI * SQRT_HI >= MAX_DIST_SQ) by (nonlinear_arith);
    while hi - lo > 1
        invariant
            0 <= lo < hi <= SQRT_HI,
            lo * lo < s,
            hi * hi >= s,
            0 < s <= MAX_DIST_SQ,
        decreases hi - lo,
    {
        let mid: i64 = lo + (hi - lo) / 2;
        assert(mid * mid <= SQRT_HI * SQRT_HI) by (nonlinear_arith)
            requires
                0 <= mid <= SQRT_HI,
        ;
        if mid * mid >= s {
            hi = mid;
        } else {
            lo = mid;
        }
    }
    hi
}

proof fn lemma_scaled_part(a: int, m: int, d: int)
    requires
        0 <= a,
        0 < m < d,
    ensures
        0 <= a * m / d <= a,
        (a * m / d) * d <= a * m,
{
    let q = a * m / d;
    assert(q * d <= a * m) by (nonlinear_arith)
        requires
            q == a * m / d,
            d > 0,
    ;
    assert(0 <= q) by (nonlinear_arith)
        requires
            q == a * m / d,
            d > 0,
            a >= 0,
            m > 0,
    ;
    assert(q <= a) by (nonlinear_arith)
        requires
            q * d <= a * m,
            0 < m < d,
            a >= 0,
            q >= 0,
    ;
}

proof fn lemma_step_within(ax: int, ay: int, qx: int, qy: int, m: int, d: int)
    requires
        0 <= ax,
        0 <= ay,
        0 <= qx,
        0 <= qy,
        0 < m < d,
        qx * d <= ax * m,
        qy * d <= ay * m,
        ax * ax + ay * ay <= d * d,
    ensures
        qx * qx + qy * qy <= m * m,
{
    assert(qx * qx * (d * d) <= ax * ax * (m * m)) by (nonlinear_arith)
        requires
            0 <= qx * d <= ax * m,
            0 <= qx,
            0 < d,
    ;
    assert(qy * qy * (d * d) <= ay * ay * (m * m)) by (nonlinear_arith)
        requires
            0 <= qy * d <= ay * m,
            0 <= qy,
            0 < d,
    ;
    assert((qx * qx + qy * qy) * (d * d) <= (d * d) * (m * m)) by (nonlinear_arith)
        requires
            qx * qx * (d * d) <= ax * ax * (m * m),
            qy * qy * (d * d) <= ay * ay * (m * m),
            ax * ax + ay * ay <= d * d,
            m > 0,
    ;
    assert(qx * qx + qy * qy <= m * m) by (nonlinear_arith)
        requires
            (qx * qx + qy * qy) * (d * d) <= (d * d) * (m * m),
            d > 0,
    ;
}

/// Offset of a capped step along one axis, toward `delta`'s sign.
fn scaled_step(delta: i64, d: i64) -> (r: i64)
    requires
        -RINK_LENGTH <= delta <= RINK_LENGTH,
        MAX_STEP < d <= SQRT_HI,
    ensures
        r == step_component(delta as int, d as int),
        abs(r as int) <= abs(delta as int),
        abs(r as int) * d <= abs(delta as int) * MAX_STEP,
        delta >= 0 ==> r >= 0,
        delta < 0 ==> r <= 0,
{
    let a: i64 = if delta >= 0 { delta } else { -delta };
    proof {
        lemma_scaled_part(a as int, MAX_STEP as int, d as int);
    }
    let q: i64 = a * MAX_STEP / d;
    if delta >= 0 { q } else { -q }
}

/// One tick of bounded-speed pursuit from `(x, y)` toward `(tx, ty)`.
///
/// Returns the new position and the speed of the move. A target within
/// `MAX_STEP` is reached exactly; a farther one is approached by a step of
/// at most `MAX_STEP` along the direction to it, never past it.
pub fn steer_toward(x: i64, y: i64, tx: i64, ty: i64) -> (r: (i64, i64, i64))
    requires
        in_rink(x as int, y as int),
        in_rink(tx as int, ty as int),
    ensures
        dist_sq(r.0 - x, r.1 - y) <= MAX_STEP * MAX_STEP,
        dist_sq(tx - x, ty - y) <= MAX_STEP * MAX_STEP ==> r.0 == tx && r.1 == ty && is_ceil_sqrt(
            r.2 as int,
            dist_sq(tx - x, ty - y),
        ),
        dist_sq(tx - x, ty - y) > MAX_STEP * MAX_STEP ==> exists|d: int|
            #[trigger] is_ceil_sqrt(d, dist_sq(tx - x, ty - y)) && r.0 == x + step_component(
                tx - x,
                d,
            ) && r.1 == y + step_component(ty - y, d) && r.2 == MAX_STEP,
        in_rink(r.0 as int, r.1 as int),
        0 <= r.2 <= MAX_STEP,
{
    let dx: i64 = tx - x;
    let dy: i64 = ty - y;
    assert(0 <= dx * dx <= RINK_LENGTH * RINK_LENGTH) by (nonlinear_arith)
        requires
            -RINK_LENGTH <= dx <= RINK_LENGTH,
    ;
    assert(0 <= dy * dy <= RINK_WIDTH * RINK_WIDTH) by (nonlinear_arith)
        requires
            -RINK_WIDTH <= dy <= RINK_WIDTH,
    ;
    let s: i64 = dx * dx + dy * dy;
    let d = ceil_sqrt(s);
    if d <= MAX_STEP {
        assert(s <= MAX_STEP * MAX_STEP) by (nonlinear_arith)
            requires
                d * d >= s,
                0 <= d <= MAX_STEP,
        ;
        (tx, ty, d)
    } else {
        assert(s > MAX_STEP * MAX_STEP) by (nonlinear_arith)
            requires
                d > MAX_STEP,
                d == 0 || (d - 1) * (d - 1) < s,
        ;
        let sx = scaled_step(dx, d);
        let sy = scaled_step(dy, d);
        proof {
            let ax = abs(dx as int);
            let ay = abs(dy as int);
            assert(ax * ax == dx * dx) by (nonlinear_arith)
                requires
                    ax == abs(dx as int),
            ;
            assert(ay * ay == dy * dy) by (nonlinear_arith)
                requires
                    ay == abs(dy as int),
            ;
            lemma_step_within(ax, ay, abs(sx as int), abs(sy as int), MAX_STEP as int, d as int);
            assert(abs(sx as int) * abs(sx as int) == sx * sx) by (nonlinear_arith);
            assert(abs(sy as int) * abs(sy as int) == sy * sy) by (nonlinear_arith);
            assert(is_ceil_sqrt(d as int, dist_sq(tx - x, ty - y)));
        }
        (x + sx, y + sy, MAX_STEP)
    }
}

} // verus!
