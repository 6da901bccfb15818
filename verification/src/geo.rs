//! Geospatial predicate: a squared planar metric on scaled integer
//! coordinates, used consistently for radius filtering and distance
//! ordering, plus the hexagonal-vicinity cell counts.

use vstd::prelude::*;

verus! {

/// Coordinates are scaled integers (for instance micro-degrees); every
/// geo-tagged record keeps its point within this bound so that squared
/// distances fit in `u64`.
pub const COORD_LIMIT: i64 = 1_000_000_000;

/// A geographic point with scaled integer coordinates.
#[derive(PartialEq, Eq, Structural, Clone, Copy, Debug)]
pub struct Point {
    pub lat: i64,
    pub lon: i64,
}

/// Whether a point's coordinates lie within the representable band.
pub open spec fn point_in_range(lat: int, lon: int) -> bool {
    -(COORD_LIMIT as int) <= lat <= COORD_LIMIT as int
        && -(COORD_LIMIT as int) <= lon <= COORD_LIMIT as int
}

/// The squared planar distance between two points, the single distance
/// quantity used for both the radius filter and the ordering key; a radius
/// is expressed in the same squared unit.
pub open spec fn dist_sq(alat: int, alon: int, blat: int, blon: int) -> int {
    (alat - blat) * (alat - blat) + (alon - blon) * (alon - blon)
}

/// Whether the point lies within `radius` of the center, inclusively.
pub open spec fn spec_within(alat: int, alon: int, blat: int, blon: int, radius: int) -> bool {
    dist_sq(alat, alon, blat, blon) <= radius
}

pub proof fn lemma_dist_sq_bounds(alat: int, alon: int, blat: int, blon: int)
    requires
        point_in_range(alat, alon),
        point_in_range(blat, blon),
    ensures
        0 <= dist_sq(alat, alon, blat, blon) <= 8_000_000_000_000_000_000,
{
    let dx = alat - blat;
    let dy = alon - blon;
    assert(-2_000_000_000 <= dx <= 2_000_000_000);
    assert(-2_000_000_000 <= dy <= 2_000_000_000);
    assert(0 <= dx * dx <= 4_000_000_000_000_000_000) by (nonlinear_arith)
        requires -2_000_000_000 <= dx <= 2_000_000_000;
    assert(0 <= dy * dy <= 4_000_000_000_000_000_000) by (nonlinear_arith)
        requires -2_000_000_000 <= dy <= 2_000_000_000;
}

/// The distance value attached to every row of a nearby listing.
pub fn distance(p: &Point, c: &Point) -> (d: u64)
    requires
        point_in_range(p.lat as int, p.lon as int),
        point_in_range(c.lat as int, c.lon as int),
    ensures
        d as int == dist_sq(p.lat as int, p.lon as int, c.lat as int, c.lon as int),
{
    proof {
        lemma_dist_sq_bounds(p.lat as int, p.lon as int, c.lat as int, c.lon as int);
    }
    let dx: i64 = p.lat - c.lat;
    let dy: i64 = p.lon - c.lon;
    proof {
        assert(0 <= dx as int * dx as int <= 4_000_000_000_000_000_000) by (nonlinear_arith)
            requires -2_000_000_000 <= dx as int <= 2_000_000_000;
        assert(0 <= dy as int * dy as int <= 4_000_000_000_000_000_000) by (nonlinear_arith)
            requires -2_000_000_000 <= dy as int <= 2_000_000_000;
    }
    let sx: i128 = dx as i128 * dx as i128;
    let sy: i128 = dy as i128 * dy as i128;
    let dx2: u64 = sx as u64;
    let dy2: u64 = sy as u64;
    dx2 + dy2
}

/// The radius filter: inclusive comparison of the distance against the
/// radius, evaluated with the same metric as the ordering key.
pub fn within(p: &Point, c: &Point, radius: u64) -> (r: bool)
    requires
        point_in_range(p.lat as int, p.lon as int),
        point_in_range(c.lat as int, c.lon as int),
    ensures
        r == spec_within(p.lat as int, p.lon as int, c.lat as int, c.lon as int, radius as int),
{
    distance(p, c) <= radius
}

/// Radius monotonicity: enlarging the radius never loses a match.
pub proof fn lemma_radius_monotonic(
    alat: int, alon: int, blat: int, blon: int, r1: int, r2: int,
)
    requires
        r1 <= r2,
    ensures
        spec_within(alat, alon, blat, blon, r1) ==> spec_within(alat, alon, blat, blon, r2),
{
}

/// Degenerate input: with radius zero, only the exact center point matches.
pub proof fn lemma_zero_radius_exact(alat: int, alon: int, blat: int, blon: int)
    ensures
        spec_within(alat, alon, blat, blon, 0) <==> (alat == blat && alon == blon),
{
    let dx = alat - blat;
    let dy = alon - blon;
    assert(dx * dx >= 0) by (nonlinear_arith);
    assert(dy * dy >= 0) by (nonlinear_arith);
    if dx != 0 {
        assert(dx * dx > 0) by (nonlinear_arith)
            requires dx != 0;
    }
    if dy != 0 {
        assert(dy * dy > 0) by (nonlinear_arith)
            requires dy != 0;
    }
}

/// The number of cells in the rings `1..=k` around a hexagonal cell,
/// divided by six: the triangular number of `k`.
pub open spec fn spec_vicinity_factor(k: int) -> int
    decreases k,
{
    if k <= 0 {
        0
    } else {
        spec_vicinity_factor(k - 1) + k
    }
}

pub fn vicinity_factor(k: i32) -> (r: usize)
    requires
        0 <= k <= 10_000,
    ensures
        r as int == spec_vicinity_factor(k as int),
        2 * r as int == k as int * (k as int + 1),
    decreases k,
{
    proof {
        lemma_vicinity_factor_closed(k as int);
        assert(k as int * (k as int + 1) <= 100_010_000) by (nonlinear_arith)
            requires 0 <= k as int <= 10_000;
    }
    if k == 0 {
        return 0;
    }
    vicinity_factor(k - 1) + (k as usize)
}

pub proof fn lemma_vicinity_factor_closed(k: int)
    requires
        0 <= k,
    ensures
        2 * spec_vicinity_factor(k) == k * (k + 1),
    decreases k,
{
    if k > 0 {
        lemma_vicinity_factor_closed(k - 1);
        assert(spec_vicinity_factor(k) == spec_vicinity_factor(k - 1) + k);
        assert(2 * spec_vicinity_factor(k) == 2 * spec_vicinity_factor(k - 1) + 2 * k);
        assert((k - 1) * k + 2 * k == k * (k + 1)) by (nonlinear_arith);
        assert(2 * spec_vicinity_factor(k) == k * (k + 1));
    } else {
        assert(k == 0);
        assert(spec_vicinity_factor(0) == 0);
        assert(2 * spec_vicinity_factor(k) == k * (k + 1));
    }
}

/// How many cells a vicinity of ring depth `k` holds: the center cell plus
/// six cells for each step of each ring.
pub fn vicinity_number(k: i32) -> (r: usize)
    requires
        0 <= k <= 10_000,
    ensures
        r as int == 6 * spec_vicinity_factor(k as int) + 1,
        r as int == 3 * (k as int * (k as int + 1)) + 1,
{
    proof {
        assert(k as int * (k as int + 1) <= 100_010_000) by (nonlinear_arith)
            requires 0 <= k as int <= 10_000;
    }
    vicinity_factor(k) * 6 + 1
}

} // verus!
