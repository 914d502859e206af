//! Fixed-point plane geometry: world positions in subpixel units, the
//! cell-of-position formula, squared distances and the integer square root
//! used for exact Euclidean distances.

use vstd::prelude::*;

use crate::map::{CellCoordinate, CELL_SIZE};
use vstd::arithmetic::div_mod::{
    lemma_fundamental_div_mod, lemma_fundamental_div_mod_converse,
    lemma_div_is_ordered_by_denominator,
};

verus! {

/// World units per pixel: coordinates are held as integer subpixels.
pub const SUBPIXELS: i64 = 1000;

/// Half of [`CELL_SIZE`]: the offset that centers cell boundaries on cell
/// midpoints in the cell-of-position formula.
pub const HALF_CELL_SIZE: i64 = 15_000;

/// Bound on any world coordinate the simulation handles, in subpixels
/// (one million pixels): keeps all distance arithmetic within `u64`.
pub const POS_LIMIT: i64 = 1_000_000_000;

/// A continuous 2D world position, in subpixel units.
#[derive(Debug, Default, Copy, Clone, Eq, PartialEq, Hash, Structural)]
pub struct Point {
    pub x: i64,
    pub y: i64,
}

/// Whether a position lies within the coordinate bound the simulation
/// keeps for all entities.
pub open spec fn in_world(p: Point) -> bool {
    &&& -POS_LIMIT <= p.x <= POS_LIMIT
    &&& -POS_LIMIT <= p.y <= POS_LIMIT
}

/// Floor division of `a` by a positive `b`. In specifications, `/` on
/// `int` already rounds toward negative infinity when the divisor is
/// positive; this provides the same quotient in executable code.
pub fn div_floor(a: i64, b: i64) -> (q: i64)
    requires
        b > 0,
        -0x4000_0000_0000_0000 <= a <= 0x4000_0000_0000_0000,
    ensures
        q == a as int / b as int,
        b * q <= a < b * (q + 1),
{
    let q: i64 = if a >= 0 {
        ((a as u64) / (b as u64)) as i64
    } else {
        let m: u64 = (-(a + 1)) as u64;
        let t: u64 = m / (b as u64);
        proof {
            // -a - 1 == b * t + r with 0 <= r < b, so
            // a == b * (-t - 1) + (b - r - 1) with the remainder in range.
            let bi = b as int;
            let mi = m as int;
            let ti = t as int;
            lemma_fundamental_div_mod(mi, bi);
            vstd::arithmetic::div_mod::lemma_mod_bound(mi, bi);
            let r = mi % bi;
            assert(a as int == (-ti - 1) * bi + (bi - r - 1)) by (nonlinear_arith)
                requires
                    mi == bi * ti + r,
                    a as int == -mi - 1,
            ;
            lemma_fundamental_div_mod_converse(a as int, bi, -ti - 1, bi - r - 1);
        }
        -(t as i64) - 1
    };
    proof {
        lemma_fundamental_div_mod(a as int, b as int);
        vstd::arithmetic::div_mod::lemma_mod_bound(a as int, b as int);
        assert(b * q <= a < b * (q + 1)) by (nonlinear_arith)
            requires
                q == a as int / b as int,
                a as int == b as int * (a as int / b as int) + a as int % b as int,
                0 <= a as int % b as int,
                (a as int % b as int) < b as int,
        ;
    }
    q
}

/// The squared distance of two in-world positions stays within `u64`.
pub proof fn lemma_dist_sq_bound(a: Point, b: Point)
    requires
        in_world(a),
        in_world(b),
    ensures
        0 <= dist_sq(a, b) <= 8_000_000_000_000_000_000,
{
    assert(0 <= dist_sq(a, b) <= 8_000_000_000_000_000_000) by (nonlinear_arith)
        requires
            -2_000_000_000 <= a.x - b.x <= 2_000_000_000,
            -2_000_000_000 <= a.y - b.y <= 2_000_000_000,
    ;
}

/// The grid-cell index containing the axis position `v`:
/// `floor((v + half cell) / cell size)`, so cell boundaries sit halfway
/// between cell centers.
pub open spec fn spec_cell_axis(v: int) -> int {
    (v + HALF_CELL_SIZE) / CELL_SIZE as int
}

/// The grid cell containing the world position `p`.
pub open spec fn spec_cell_from_position(p: Point) -> CellCoordinate {
    CellCoordinate { x: spec_cell_axis(p.x as int) as i32, y: spec_cell_axis(p.y as int) as i32 }
}

/// Computes the grid cell containing a world position, by the half-cell
/// offset formula on each axis.
pub fn cell_from_position(p: Point) -> (c: CellCoordinate)
    requires
        in_world(p),
    ensures
        c == spec_cell_from_position(p),
        -34_000 <= c.x <= 34_000,
        -34_000 <= c.y <= 34_000,
{
    let cx = div_floor(p.x + HALF_CELL_SIZE, CELL_SIZE);
    let cy = div_floor(p.y + HALF_CELL_SIZE, CELL_SIZE);
    CellCoordinate { x: cx as i32, y: cy as i32 }
}

/// The world position of a cell's center.
pub fn cell_center(c: CellCoordinate) -> (p: Point)
    requires
        -33_333 <= c.x <= 33_333,
        -33_333 <= c.y <= 33_333,
    ensures
        p.x == c.x as int * CELL_SIZE,
        p.y == c.y as int * CELL_SIZE,
        in_world(p),
{
    Point { x: (c.x as i64) * CELL_SIZE, y: (c.y as i64) * CELL_SIZE }
}

/// The squared Euclidean distance between two positions.
pub open spec fn dist_sq(a: Point, b: Point) -> int {
    (a.x - b.x) * (a.x - b.x) + (a.y - b.y) * (a.y - b.y)
}

/// Computes the exact squared distance between two in-world positions.
pub fn distance_squared(a: Point, b: Point) -> (d: u64)
    requires
        in_world(a),
        in_world(b),
    ensures
        d == dist_sq(a, b),
{
    let ax = abs_diff(a.x, b.x);
    let ay = abs_diff(a.y, b.y);
    proof {
        assert(ax * ax <= 2_000_000_000 * 2_000_000_000 && ay * ay <= 2_000_000_000
            * 2_000_000_000 && ax * ax == (a.x - b.x) * (a.x - b.x) && ay * ay == (a.y - b.y) * (a.y
            - b.y)) by (nonlinear_arith)
            requires
                0 <= ax <= 2_000_000_000,
                0 <= ay <= 2_000_000_000,
                ax == if a.x >= b.x { a.x - b.x } else { b.x - a.x },
                ay == if a.y >= b.y { a.y - b.y } else { b.y - a.y },
        ;
    }
    ax * ax + ay * ay
}

/// The absolute difference of two bounded coordinates.
fn abs_diff(a: i64, b: i64) -> (d: u64)
    requires
        -POS_LIMIT <= a <= POS_LIMIT,
        -POS_LIMIT <= b <= POS_LIMIT,
    ensures
        d == if a >= b { a - b } else { b - a },
        d <= 2_000_000_000,
{
    if a >= b {
        (a - b) as u64
    } else {
        (b - a) as u64
    }
}

/// Whether `r` is the integer square root of `n`: the largest integer
/// whose square does not exceed `n`.
pub open spec fn is_floor_sqrt(n: int, r: int) -> bool {
    &&& 0 <= r
    &&& r * r <= n
    &&& n < (r + 1) * (r + 1)
}

/// The integer square root of a non-negative `n`.
pub open spec fn floor_sqrt(n: int) -> int {
    choose|r: int| is_floor_sqrt(n, r)
}

/// The integer square root is unique.
pub proof fn lemma_floor_sqrt_unique(n: int, r: int)
    requires
        is_floor_sqrt(n, r),
    ensures
        r == floor_sqrt(n),
{
    let c = floor_sqrt(n);
    assert(is_floor_sqrt(n, c));
    assert(r == c) by (nonlinear_arith)
        requires
            0 <= r,
            0 <= c,
            r * r <= n < (r + 1) * (r + 1),
            c * c <= n < (c + 1) * (c + 1),
    ;
}

/// Computes the integer square root of `n` by binary search.
pub fn isqrt(n: u64) -> (r: u64)
    ensures
        is_floor_sqrt(n as int, r as int),
        r as int == floor_sqrt(n as int),
{
    let mut lo: u64 = 0;
    let mut hi: u64 = 4_294_967_296;
    proof {
        assert((4_294_967_296int) * 4_294_967_296 > u64::MAX);
    }
    while hi - lo > 1
        invariant
            lo < hi <= 4_294_967_296,
            lo * lo <= n,
            n < hi * hi,
        decreases hi - lo,
    {
        let mid = lo + (hi - lo) / 2;
        proof {
            assert(mid as int * mid as int <= 0x1_0000_0000 * 0x1_0000_0000) by (nonlinear_arith)
                requires
                    0 <= mid <= 0x1_0000_0000,
            ;
        }
        if (mid as u128) * (mid as u128) <= n as u128 {
            lo = mid;
        } else {
            hi = mid;
        }
    }
    proof {
        lemma_floor_sqrt_unique(n as int, lo as int);
    }
    lo
}

/// The exact Euclidean distance between `(x1, y1)` and `(x2, y2)`,
/// rounded down to whole subpixel units.
pub fn euclidean_distance(x1: i64, y1: i64, x2: i64, y2: i64) -> (d: u64)
    requires
        in_world(Point { x: x1, y: y1 }),
        in_world(Point { x: x2, y: y2 }),
    ensures
        d as int == floor_sqrt(dist_sq(Point { x: x1, y: y1 }, Point { x: x2, y: y2 })),
        is_floor_sqrt(dist_sq(Point { x: x1, y: y1 }, Point { x: x2, y: y2 }), d as int),
        d <= 3_000_000_000,
{
    let sq = distance_squared(Point { x: x1, y: y1 }, Point { x: x2, y: y2 });
    proof {
        lemma_dist_sq_bound(Point { x: x1, y: y1 }, Point { x: x2, y: y2 });
    }
    let d = isqrt(sq);
    proof {
        assert(d <= 3_000_000_000) by (nonlinear_arith)
            requires
                d as int * d as int <= sq,
                sq <= 8_000_000_000_000_000_000,
        ;
    }
    d
}

/// One homing step along an axis: the position advances toward `q` by the
/// fraction `step / dist` of the remaining gap, rounded toward the start.
pub open spec fn spec_step_axis(p: int, q: int, step: int, dist: int) -> int {
    if q >= p {
        p + (q - p) * step / dist
    } else {
        p - (p - q) * step / dist
    }
}

/// One homing step of both axes toward `dest`.
pub open spec fn spec_step_toward(pos: Point, dest: Point, step: int, dist: int) -> Point {
    Point {
        x: spec_step_axis(pos.x as int, dest.x as int, step, dist) as i64,
        y: spec_step_axis(pos.y as int, dest.y as int, step, dist) as i64,
    }
}

/// Moves `pos` toward `dest` by a step of `speed * delta_ms / 1000`
/// subpixels, clamped at the destination: a step at least as long as the
/// remaining distance arrives exactly, and a zero remaining distance
/// leaves the position unchanged.
pub fn step_toward(pos: Point, dest: Point, speed: u64, delta_ms: u64) -> (r: Point)
    requires
        in_world(pos),
        in_world(dest),
    ensures
        ({
            let dist = floor_sqrt(dist_sq(pos, dest));
            let step = speed * delta_ms / 1000;
            if step >= dist {
                r == dest
            } else {
                r == spec_step_toward(pos, dest, step as int, dist)
            }
        }),
        in_world(r),
        dist_sq(r, dest) <= dist_sq(pos, dest),
{
    let sq = distance_squared(pos, dest);
    proof {
        lemma_dist_sq_bound(pos, dest);
    }
    let dist = isqrt(sq);
    proof {
        assert(dist <= 3_000_000_000) by (nonlinear_arith)
            requires
                dist as int * dist as int <= sq,
                sq <= 8_000_000_000_000_000_000,
        ;
        assert(speed as int * delta_ms as int <= 0xFFFF_FFFF_FFFF_FFFF * 0xFFFF_FFFF_FFFF_FFFF)
            by (nonlinear_arith)
            requires
                0 <= speed <= 0xFFFF_FFFF_FFFF_FFFF,
                0 <= delta_ms <= 0xFFFF_FFFF_FFFF_FFFF,
        ;
    }
    let step128: u128 = (speed as u128) * (delta_ms as u128) / 1000;
    if step128 >= dist as u128 {
        dest
    } else {
        let step = step128 as u64;
        let x = step_axis(pos.x, dest.x, step, dist);
        let y = step_axis(pos.y, dest.y, step, dist);
        let r = Point { x, y };
        proof {
            lemma_step_axis_shrinks(pos.x as int, dest.x as int, step as int, dist as int);
            lemma_step_axis_shrinks(pos.y as int, dest.y as int, step as int, dist as int);
            lemma_sq_le(r.x - dest.x, pos.x - dest.x);
            lemma_sq_le(r.y - dest.y, pos.y - dest.y);
        }
        r
    }
}

/// One axis of a homing step, for a step strictly shorter than the total
/// remaining distance.
fn step_axis(p: i64, q: i64, step: u64, dist: u64) -> (r: i64)
    requires
        -POS_LIMIT <= p <= POS_LIMIT,
        -POS_LIMIT <= q <= POS_LIMIT,
        step < dist,
        dist <= 3_000_000_000,
    ensures
        r == spec_step_axis(p as int, q as int, step as int, dist as int),
        if q >= p {
            p <= r <= q
        } else {
            q <= r <= p
        },
{
    let gap = abs_diff(q, p);
    proof {
        assert(gap as int * step as int <= 2_000_000_000 * 3_000_000_000 && gap as int
            * step as int / dist as int <= gap && gap as int * step as int >= 0)
            by (nonlinear_arith)
            requires
                0 <= gap <= 2_000_000_000,
                0 <= step < dist <= 3_000_000_000,
        ;
    }
    let advance = (((gap as u128) * (step as u128)) / (dist as u128)) as u64;
    if q >= p {
        p + (advance as i64)
    } else {
        p - (advance as i64)
    }
}

/// A position no farther from `q` on each axis is no farther in squared
/// terms.
proof fn lemma_step_axis_shrinks(p: int, q: int, step: int, dist: int)
    requires
        0 <= step < dist,
    ensures
        if q >= p {
            p <= spec_step_axis(p, q, step, dist) <= q
        } else {
            q <= spec_step_axis(p, q, step, dist) <= p
        },
{
    let gap = if q >= p {
        q - p
    } else {
        p - q
    };
    assert(0 <= gap * step / dist <= gap) by (nonlinear_arith)
        requires
            0 <= gap,
            0 <= step < dist,
    ;
}

/// Squares are ordered by absolute value.
proof fn lemma_sq_le(a: int, b: int)
    requires
        (0 <= a <= b) || (b <= a <= 0) || (0 <= -a <= b) || (b <= -a <= 0),
    ensures
        a * a <= b * b,
{
    assert(a * a <= b * b) by (nonlinear_arith)
        requires
            (0 <= a <= b) || (b <= a <= 0) || (0 <= -a <= b) || (b <= -a <= 0),
    ;
}

} // verus!
