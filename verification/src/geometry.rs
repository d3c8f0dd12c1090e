//! Integer plane geometry: axis-aligned rectangles, squared distances and
//! floor square roots, shared by the pathfinder and the combat resolver.

use vstd::prelude::*;

verus! {

/// Largest magnitude of a map coordinate, in whole world units.
pub const MAP_LIMIT: i32 = 1_000_000;

/// Largest magnitude of a unit position coordinate, in milli-units.
pub const COORD_LIMIT: i64 = 1_000_000_000;

/// Axis-aligned rectangle in whole world units.
#[derive(Clone, Copy, PartialEq, Eq, Structural, Debug)]
pub struct Rect {
    pub min_x: i32,
    pub min_y: i32,
    pub max_x: i32,
    pub max_y: i32,
}

impl Rect {
    /// A well-formed rectangle is normalized and lies within the map limits.
    pub open spec fn wf(self) -> bool {
        &&& self.min_x <= self.max_x
        &&& self.min_y <= self.max_y
        &&& -MAP_LIMIT <= self.min_x
        &&& self.max_x <= MAP_LIMIT
        &&& -MAP_LIMIT <= self.min_y
        &&& self.max_y <= MAP_LIMIT
    }

    /// Both bounds are inclusive.
    pub open spec fn contains_spec(self, x: int, y: int) -> bool {
        &&& self.min_x <= x <= self.max_x
        &&& self.min_y <= y <= self.max_y
    }

    /// Builds the rectangle spanned by two opposite corners, in either order.
    pub fn from_corners(p0: (i32, i32), p1: (i32, i32)) -> (r: Rect)
        ensures
            r.min_x == if p0.0 <= p1.0 { p0.0 } else { p1.0 },
            r.max_x == if p0.0 <= p1.0 { p1.0 } else { p0.0 },
            r.min_y == if p0.1 <= p1.1 { p0.1 } else { p1.1 },
            r.max_y == if p0.1 <= p1.1 { p1.1 } else { p0.1 },
    {
        Rect {
            min_x: if p0.0 <= p1.0 { p0.0 } else { p1.0 },
            max_x: if p0.0 <= p1.0 { p1.0 } else { p0.0 },
            min_y: if p0.1 <= p1.1 { p0.1 } else { p1.1 },
            max_y: if p0.1 <= p1.1 { p1.1 } else { p0.1 },
        }
    }

    pub fn contains(&self, x: i64, y: i64) -> (b: bool)
        ensures
            b == self.contains_spec(x as int, y as int),
    {
        self.min_x as i64 <= x && x <= self.max_x as i64 && self.min_y as i64 <= y
            && y <= self.max_y as i64
    }
}

/// Squared Euclidean distance between two points.
pub open spec fn dist_sq(ax: int, ay: int, bx: int, by: int) -> int {
    (ax - bx) * (ax - bx) + (ay - by) * (ay - by)
}

/// The greatest `r >= 0` with `r * r <= n` (for `n >= 0`).
pub open spec fn sqrt_floor(n: int) -> int {
    choose|r: int| 0 <= r && #[trigger] (r * r) <= n && (n) < (r + 1) * (r + 1)
}

/// The defining properties pin `sqrt_floor(n)` down to the witness `r`.
pub proof fn lemma_sqrt_floor_unique(n: int, r: int)
    requires
        0 <= r,
        r * r <= n,
        (n) < (r + 1) * (r + 1),
    ensures
        sqrt_floor(n) == r,
{
    let c = choose|c: int| 0 <= c && #[trigger] (c * c) <= n && (n) < (c + 1) * (c + 1);
    assert(0 <= c && c * c <= n && (n) < (c + 1) * (c + 1));
    assert(c == r) by (nonlinear_arith)
        requires
            0 <= r,
            r * r <= n,
            (n) < (r + 1) * (r + 1),
            0 <= c,
            c * c <= n,
            (n) < (c + 1) * (c + 1),
    ;
}

/// Floor of the square root, by bisection.
pub fn isqrt(n: u128) -> (r: u64)
    ensures
        r * r <= n,
        (n as int) < (r as int + 1) * (r as int + 1),
        r == sqrt_floor(n as int),
{
    let mut lo: u64 = 0;
    let mut hi: u64 = u64::MAX;
    proof {
        assert((hi as int + 1) * (hi as int + 1) > n as int) by (nonlinear_arith)
            requires
                hi == u64::MAX,
                n <= u128::MAX,
        ;
    }
    while lo < hi
        invariant
            lo <= hi,
            (lo as int) * (lo as int) <= n as int,
            (n as int) < (hi as int + 1) * (hi as int + 1),
        decreases hi - lo,
    {
        let mid: u64 = lo + (hi - lo) / 2;
        let next: u128 = mid as u128 + 1;
        proof {
            assert(next * next < u128::MAX) by (nonlinear_arith)
                requires
                    1 <= next <= 0xFFFF_FFFF_FFFF_FFFFu128,
            ;
        }
        let sq: u128 = next * next;
        if sq <= n {
            lo = mid + 1;
        } else {
            hi = mid;
        }
    }
    proof {
        lemma_sqrt_floor_unique(n as int, lo as int);
    }
    lo
}

/// Squared distance as an executable value; coordinates up to four times the
/// position limit are accepted so that differences of any two in-range points
/// fit.
pub fn distance_sq(ax: i64, ay: i64, bx: i64, by: i64) -> (d: u128)
    requires
        -4 * (COORD_LIMIT as int) <= ax <= 4 * (COORD_LIMIT as int),
        -4 * (COORD_LIMIT as int) <= ay <= 4 * (COORD_LIMIT as int),
        -4 * (COORD_LIMIT as int) <= bx <= 4 * (COORD_LIMIT as int),
        -4 * (COORD_LIMIT as int) <= by <= 4 * (COORD_LIMIT as int),
    ensures
        d == dist_sq(ax as int, ay as int, bx as int, by as int),
        d <= 0x8000_0000_0000_0000_0000u128,
{
    let dx: i128 = ax as i128 - bx as i128;
    let dy: i128 = ay as i128 - by as i128;
    proof {
        assert(dx * dx + dy * dy <= 0x8000_0000_0000_0000_0000int && dx * dx >= 0 && dy * dy >= 0)
            by (nonlinear_arith)
            requires
                -0x4_0000_0000int <= dx <= 0x4_0000_0000int,
                -0x4_0000_0000int <= dy <= 0x4_0000_0000int,
        ;
    }
    let sq: i128 = dx * dx + dy * dy;
    sq as u128
}

/// Euclidean distance rounded down to a whole number.
pub fn euclid_dist(ax: i64, ay: i64, bx: i64, by: i64) -> (d: u64)
    requires
        -4 * (COORD_LIMIT as int) <= ax <= 4 * (COORD_LIMIT as int),
        -4 * (COORD_LIMIT as int) <= ay <= 4 * (COORD_LIMIT as int),
        -4 * (COORD_LIMIT as int) <= bx <= 4 * (COORD_LIMIT as int),
        -4 * (COORD_LIMIT as int) <= by <= 4 * (COORD_LIMIT as int),
    ensures
        d == sqrt_floor(dist_sq(ax as int, ay as int, bx as int, by as int)),
        (d as int) * (d as int) <= dist_sq(ax as int, ay as int, bx as int, by as int),
        dist_sq(ax as int, ay as int, bx as int, by as int) < (d as int + 1) * (d as int + 1),
{
    let sq = distance_sq(ax, ay, bx, by);
    isqrt(sq)
}

} // verus!
