//! Radial motion of a hazard toward the origin.
use vstd::prelude::*;
use vstd::arithmetic::div_mod::{lemma_fundamental_div_mod, lemma_mod_pos_bound};
use crate::geometry::{Point, point_wf, norm2, floor_sqrt, lemma_axis_below_root, isqrt, COORD_LIMIT};

verus! {

/// Largest speed of a hazard, in units per second.
pub const MAX_SPEED: u64 = 1_000_000_000;

/// Largest time step of one frame, in microseconds.
pub const MAX_FRAME_MICROS: u64 = 1_000_000_000;

pub const MICROS_PER_SECOND: u64 = 1_000_000;

/// Distance covered in `elapsed` microseconds at `speed` units per second,
/// rounded up to a whole unit.
pub open spec fn step_length(speed: u64, elapsed: u64) -> nat {
    ((speed * elapsed + (MICROS_PER_SECOND - 1)) / MICROS_PER_SECOND as int) as nat
}

/// `a / b` rounded up, for `b > 0`.
pub open spec fn ceil_div(a: int, b: int) -> int {
    (a + b - 1) / b
}

/// One coordinate `c` after a step of length `s` toward the origin, where `r`
/// is the (rounded down) distance of the point to the origin: the coordinate
/// loses `c * s / r`, rounded up in magnitude.
pub open spec fn approach(c: int, s: nat, r: nat) -> int {
    if c > 0 {
        c - ceil_div(c * s, r as int)
    } else if c < 0 {
        c + ceil_div(-c * s, r as int)
    } else {
        0
    }
}

/// The exact step, `speed * elapsed / 10^6`, is shorter than the exact
/// distance of `p` to the origin (compared on squares, in microunits).
pub open spec fn falls_short(p: Point, speed: u64, elapsed: u64) -> bool {
    (speed * elapsed) * (speed * elapsed) < norm2(p) * (MICROS_PER_SECOND * MICROS_PER_SECOND)
}

/// The whole-unit step taken from `p`: the rounded-up step length, held at
/// the rounded-down distance `r` when the exact step falls short of the
/// origin, so that rounding never carries a point past it.
pub open spec fn effective_step(p: Point, speed: u64, elapsed: u64, r: nat) -> nat {
    if falls_short(p, speed, elapsed) && step_length(speed, elapsed) > r {
        r
    } else {
        step_length(speed, elapsed)
    }
}

/// Position after moving at `speed` for `elapsed` microseconds straight
/// toward the origin. A point at the origin has no direction and stays.
pub open spec fn moved(p: Point, speed: u64, elapsed: u64) -> Point {
    if p.x == 0 && p.y == 0 {
        p
    } else {
        let r = floor_sqrt(norm2(p));
        let s = effective_step(p, speed, elapsed, r);
        Point { x: approach(p.x as int, s, r) as i64, y: approach(p.y as int, s, r) as i64 }
    }
}

/// Bounds on the amount `ceil_div(a * s, r)` removed from a coordinate of
/// magnitude `a <= r`.
pub proof fn lemma_shift_bounds(a: int, s: int, r: int)
    requires
        0 <= a <= r,
        0 < r,
        0 <= s,
    ensures
        0 <= ceil_div(a * s, r) <= s,
        s <= r ==> ceil_div(a * s, r) <= a,
        a > 0 && s > 0 ==> ceil_div(a * s, r) >= 1,
{
    let x = a * s + r - 1;
    assert(a * s >= 0) by (nonlinear_arith)
        requires
            a >= 0,
            s >= 0,
    ;
    lemma_fundamental_div_mod(x, r);
    lemma_mod_pos_bound(x, r);
    let q = x / r;
    let m = x % r;
    assert(0 <= q <= s) by (nonlinear_arith)
        requires
            x == r * q + m,
            0 <= m < r,
            x == a * s + r - 1,
            0 <= a <= r,
            0 <= s,
    ;
    if s <= r {
        assert(q <= a) by (nonlinear_arith)
            requires
                x == r * q + m,
                0 <= m < r,
                x == a * s + r - 1,
                0 <= a,
                s <= r,
        ;
    }
    if a > 0 && s > 0 {
        assert(q >= 1) by (nonlinear_arith)
            requires
                x == r * q + m,
                0 <= m < r,
                x == a * s + r - 1,
                a > 0,
                s > 0,
        ;
    }
}

/// Facts about one coordinate after a step: it keeps within the larger of its
/// old magnitude and the step, and without overshoot it keeps its sign and
/// strictly shrinks unless it was zero.
pub proof fn lemma_approach(c: int, s: nat, r: nat)
    requires
        -(r as int) <= c <= r,
        r > 0,
    ensures
        c >= 0 ==> approach(c, s, r) <= c && approach(c, s, r) >= -(s as int),
        c <= 0 ==> approach(c, s, r) >= c && approach(c, s, r) <= s,
        s <= r && c > 0 ==> 0 <= approach(c, s, r) <= c,
        s <= r && c < 0 ==> c <= approach(c, s, r) <= 0,
        s > 0 && c > 0 ==> approach(c, s, r) < c,
        s > 0 && c < 0 ==> approach(c, s, r) > c,
{
    if c > 0 {
        lemma_shift_bounds(c, s as int, r as int);
    } else if c < 0 {
        lemma_shift_bounds(-c, s as int, r as int);
        assert(-c * s == (-c) * s);
    }
}

/// Squares of magnitudes keep the order of the magnitudes.
proof fn lemma_square_order(a: int, b: int)
    requires
        0 <= a <= b,
    ensures
        a * a <= b * b,
        a < b ==> a * a < b * b,
{
    assert(a * a <= b * b && (a < b ==> a * a < b * b)) by (nonlinear_arith)
        requires
            0 <= a <= b,
    ;
}

/// A point away from the origin that takes a step of at least one unit and
/// at most its rounded-down distance ends strictly closer to the origin.
proof fn lemma_step_approaches(p: Point, s: nat)
    requires
        point_wf(p),
        !(p.x == 0 && p.y == 0),
        1 <= s <= floor_sqrt(norm2(p)),
    ensures
        ({
            let r = floor_sqrt(norm2(p));
            let q = Point { x: approach(p.x as int, s, r) as i64, y: approach(p.y as int, s, r) as i64 };
            norm2(q) < norm2(p)
        }),
{
    let n = norm2(p);
    let r = floor_sqrt(n);
    let x = p.x as int;
    let y = p.y as int;
    assert(x * x >= 0 && y * y >= 0) by (nonlinear_arith);
    lemma_axis_below_root(x, n);
    lemma_axis_below_root(y, n);
    lemma_approach(x, s, r);
    lemma_approach(y, s, r);
    let nx = approach(x, s, r);
    let ny = approach(y, s, r);
    let q = Point { x: nx as i64, y: ny as i64 };
    assert(q.x == nx && q.y == ny);
    let ax = if x >= 0 { x } else { -x };
    let ay = if y >= 0 { y } else { -y };
    let bx = if nx >= 0 { nx } else { -nx };
    let by = if ny >= 0 { ny } else { -ny };
    lemma_square_order(bx, ax);
    lemma_square_order(by, ay);
    assert(bx * bx == nx * nx && ax * ax == x * x && by * by == ny * ny && ay * ay == y * y)
        by (nonlinear_arith)
        requires
            bx == nx || bx == -nx,
            ax == x || ax == -x,
            by == ny || by == -ny,
            ay == y || ay == -y,
    ;
}

/// A hazard away from the origin, moving at a positive speed for a positive
/// time whose exact step is shorter than its exact distance to the origin,
/// ends strictly closer to it.
pub proof fn lemma_motion_approaches_origin(p: Point, speed: u64, elapsed: u64)
    requires
        point_wf(p),
        !(p.x == 0 && p.y == 0),
        speed > 0,
        elapsed > 0,
        falls_short(p, speed, elapsed),
    ensures
        norm2(moved(p, speed, elapsed)) < norm2(p),
{
    let n = norm2(p);
    let r = floor_sqrt(n);
    let x = p.x as int;
    let y = p.y as int;
    assert(speed * elapsed >= 1) by (nonlinear_arith)
        requires
            speed >= 1,
            elapsed >= 1,
    ;
    assert(x * x >= 0 && y * y >= 0) by (nonlinear_arith);
    lemma_axis_below_root(x, n);
    lemma_axis_below_root(y, n);
    assert(r > 0) by {
        if r == 0 {
            assert(x == 0 && y == 0);
        }
    }
    let s = effective_step(p, speed, elapsed, r);
    assert(1 <= s <= r);
    lemma_step_approaches(p, s);
}

/// Moves `p` at `speed` for `elapsed` microseconds straight toward the origin.
pub fn advance(p: Point, speed: u64, elapsed: u64) -> (r: Point)
    requires
        point_wf(p),
        speed <= MAX_SPEED,
        elapsed <= MAX_FRAME_MICROS,
    ensures
        r == moved(p, speed, elapsed),
        point_wf(r),
        !(p.x == 0 && p.y == 0) && speed > 0 && elapsed > 0 && falls_short(p, speed, elapsed)
            ==> norm2(r) < norm2(p),
{
    proof {
        if !(p.x == 0 && p.y == 0) && speed > 0 && elapsed > 0 && falls_short(p, speed, elapsed) {
            lemma_motion_approaches_origin(p, speed, elapsed);
        }
    }
    if p.x == 0 && p.y == 0 {
        return p;
    }
    assert(speed * elapsed <= 1_000_000_000_000_000_000) by (nonlinear_arith)
        requires
            speed <= MAX_SPEED,
            elapsed <= MAX_FRAME_MICROS,
    ;
    let s: u64 = (speed * elapsed + (MICROS_PER_SECOND - 1)) / MICROS_PER_SECOND;
    let xi: i128 = p.x as i128;
    let yi: i128 = p.y as i128;
    assert(xi * xi <= 0x1_0000_0000_0000_0000_0000 && yi * yi <= 0x1_0000_0000_0000_0000_0000)
        by (nonlinear_arith)
        requires
            -COORD_LIMIT <= xi <= COORD_LIMIT,
            -COORD_LIMIT <= yi <= COORD_LIMIT,
    ;
    assert(xi * xi >= 0 && yi * yi >= 0) by (nonlinear_arith);
    let n: u128 = (xi * xi + yi * yi) as u128;
    let r: u64 = isqrt(n);
    let prod: u128 = (speed * elapsed) as u128;
    assert(prod * prod <= 1_000_000_000_000_000_000_000_000_000_000_000_000) by (nonlinear_arith)
        requires
            prod <= 1_000_000_000_000_000_000,
    ;
    let short = prod * prod < n * 1_000_000_000_000;
    let s: u64 = if short && s > r {
        r
    } else {
        s
    };
    proof {
        lemma_axis_below_root(xi as int, n as nat);
        lemma_axis_below_root(yi as int, n as nat);
        if r == 0 {
            assert(p.x == 0 && p.y == 0);
        }
        lemma_approach(xi as int, s as nat, r as nat);
        lemma_approach(yi as int, s as nat, r as nat);
    }
    let nx = approach_exec(p.x, s, r);
    let ny = approach_exec(p.y, s, r);
    Point { x: nx, y: ny }
}

/// One coordinate after a step of length `s`, `r` being the point's rounded
/// down distance to the origin.
fn approach_exec(c: i64, s: u64, r: u64) -> (out: i64)
    requires
        0 < r,
        -(r as int) <= c <= r,
        -COORD_LIMIT <= c <= COORD_LIMIT,
        s <= COORD_LIMIT,
    ensures
        out == approach(c as int, s as nat, r as nat),
        -COORD_LIMIT <= out <= COORD_LIMIT,
{
    proof {
        lemma_approach(c as int, s as nat, r as nat);
    }
    if c == 0 {
        return 0;
    }
    let a: u128 = if c > 0 { c as u128 } else { (-(c as i128)) as u128 };
    assert(a * s <= 0x1_0000_0000_0000_0000_0000) by (nonlinear_arith)
        requires
            a <= COORD_LIMIT,
            s <= COORD_LIMIT,
    ;
    let shift: u128 = (a * (s as u128) + (r as u128) - 1) / (r as u128);
    proof {
        lemma_shift_bounds(a as int, s as int, r as int);
        if c < 0 {
            assert(-c * s == a * s);
        }
    }
    if c > 0 {
        (c as i128 - shift as i128) as i64
    } else {
        (c as i128 + shift as i128) as i64
    }
}

} // verus!
