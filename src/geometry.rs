//! Points, integer square roots and distance tests.
use vstd::prelude::*;

verus! {

/// Largest magnitude of a coordinate held by the simulation.
pub const COORD_LIMIT: i64 = 1_099_511_627_776;

/// A point of the plane, in world units (origin at the arena's centre, y up)
/// or in screen units (origin top-left, y down), as each use says.
#[derive(Clone, Copy, Debug, PartialEq, Eq, Structural)]
pub struct Point {
    pub x: i64,
    pub y: i64,
}

/// Both coordinates lie within `COORD_LIMIT` of zero.
pub open spec fn point_wf(p: Point) -> bool {
    -COORD_LIMIT <= p.x <= COORD_LIMIT && -COORD_LIMIT <= p.y <= COORD_LIMIT
}

/// Squared Euclidean norm.
pub open spec fn norm2(p: Point) -> nat {
    (p.x * p.x + p.y * p.y) as nat
}

/// Squared Euclidean distance between two points.
pub open spec fn dist2(p: Point, q: Point) -> nat {
    ((p.x - q.x) * (p.x - q.x) + (p.y - q.y) * (p.y - q.y)) as nat
}

/// `p` lies strictly closer than `radius` to `q`.
pub open spec fn within(p: Point, q: Point, radius: nat) -> bool {
    dist2(p, q) < radius * radius
}

/// The largest `r` with `r * r <= n`.
pub open spec fn floor_sqrt(n: nat) -> nat
    decreases n,
{
    if n == 0 {
        0
    } else {
        let h = 2 * floor_sqrt(n / 4);
        if (h + 1) * (h + 1) <= n {
            h + 1
        } else {
            h
        }
    }
}

pub proof fn lemma_floor_sqrt(n: nat)
    ensures
        floor_sqrt(n) * floor_sqrt(n) <= n,
        n < (floor_sqrt(n) + 1) * (floor_sqrt(n) + 1),
    decreases n,
{
    if n > 0 {
        let q = n / 4;
        lemma_floor_sqrt(q);
        let r0 = floor_sqrt(q);
        let h = 2 * r0;
        assert(h * h <= n && n < (h + 2) * (h + 2)) by (nonlinear_arith)
            requires
                r0 * r0 <= q,
                q < (r0 + 1) * (r0 + 1),
                h == 2 * r0,
                4 * q <= n < 4 * q + 4,
        ;
        let r = floor_sqrt(n);
        if (h + 1) * (h + 1) <= n {
            assert(r == h + 1);
            assert((r + 1) * (r + 1) == (h + 2) * (h + 2));
            assert(r * r <= n);
            assert(n < (r + 1) * (r + 1));
        } else {
            assert(r == h);
            assert(r * r <= n);
            assert(n < (r + 1) * (r + 1));
        }
    } else {
        let r = floor_sqrt(n);
        assert(r == 0);
        assert(n < (r + 1) * (r + 1)) by (nonlinear_arith)
            requires
                r == 0,
                n == 0,
        ;
    }
}

/// A coordinate's magnitude never exceeds the floor square root of the norm.
pub proof fn lemma_axis_below_root(a: int, n: nat)
    requires
        a * a <= n,
    ensures
        -(floor_sqrt(n) as int) <= a <= floor_sqrt(n),
{
    lemma_floor_sqrt(n);
    let r = floor_sqrt(n) as int;
    assert(-r <= a <= r) by (nonlinear_arith)
        requires
            a * a <= n,
            n < (r + 1) * (r + 1),
            r >= 0,
    ;
}

/// Largest value handed to `isqrt`.
pub const NORM_LIMIT: u128 = 0x10_0000_0000_0000_0000_0000;

/// Integer square root, rounded down.
pub fn isqrt(n: u128) -> (r: u64)
    requires
        n <= NORM_LIMIT,
    ensures
        r == floor_sqrt(n as nat),
    decreases n,
{
    if n == 0 {
        0
    } else {
        let r0 = isqrt(n / 4);
        proof {
            lemma_floor_sqrt((n / 4) as nat);
            assert(r0 <= 0x1_0000_0000_0000) by (nonlinear_arith)
                requires
                    r0 * r0 <= n / 4,
                    n <= NORM_LIMIT,
            ;
        }
        let h: u128 = 2 * (r0 as u128);
        assert((h + 1) * (h + 1) <= 0x10_0000_0000_0000_0000_0000_0000) by (nonlinear_arith)
            requires
                h + 1 <= 0x2_0000_0000_0001,
                h >= 0,
        ;
        if (h + 1) * (h + 1) <= n {
            (h + 1) as u64
        } else {
            h as u64
        }
    }
}

/// Whether `p` lies strictly closer than `radius` to `q`, compared on squares.
pub fn is_within(p: Point, q: Point, radius: u64) -> (r: bool)
    requires
        point_wf(p),
        point_wf(q),
    ensures
        r == within(p, q, radius as nat),
{
    let dx: i128 = p.x as i128 - q.x as i128;
    let dy: i128 = p.y as i128 - q.y as i128;
    assert(dx * dx <= 0x100_0000_0000_0000_0000_0000) by (nonlinear_arith)
        requires
            -0x200_0000_0000 <= dx <= 0x200_0000_0000,
    ;
    assert(dy * dy <= 0x100_0000_0000_0000_0000_0000) by (nonlinear_arith)
        requires
            -0x200_0000_0000 <= dy <= 0x200_0000_0000,
    ;
    assert(0 <= dx * dx && 0 <= dy * dy) by (nonlinear_arith);
    let d2: u128 = (dx * dx + dy * dy) as u128;
    assert(radius * radius <= 0xffff_ffff_ffff_ffff_ffff_ffff_ffff_ffff) by (nonlinear_arith)
        requires
            radius <= 0xffff_ffff_ffff_ffff,
    ;
    let r2: u128 = radius as u128 * radius as u128;
    d2 < r2
}

} // verus!
