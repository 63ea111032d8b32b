//! Fixed-point 2D vectors and convex polygons.
//!
//! Every coordinate is an `i64` counting units of 1/100000 of a game unit
//! (`SCALE` subunits per game unit).  Polygon construction caches, exactly as
//! mathematical functions of the outline: per-edge direction vectors, the
//! bounding extents, and the (truncated) centroid, and validates that the
//! outline is usable for the separating-axis test (no zero-length edge, no
//! pair of consecutive edges pointing in exactly the same direction).

use vstd::prelude::*;
use vstd::arithmetic::div_mod::lemma_small_mod;
use vstd::arithmetic::div_mod::lemma_mod_self_0;

verus! {

/// Subunits per game unit: all coordinates are fixed-point with 5 decimals.
pub const SCALE: i64 = 100_000;

/// Largest magnitude a polygon coordinate may have (10000 game units):
/// keeps every projection and squared length inside `i64`/`u128` range.
pub const COORD_LIMIT: i64 = 1_000_000_000;

/// Largest magnitude a static-level coordinate may have; slightly under
/// `COORD_LIMIT` so a player hitbox snapped flush against an object edge
/// still has in-range coordinates.
pub const OBJ_COORD_LIMIT: i64 = 980_000_000;

/// Most vertices a polygon may have.
pub const MAX_VERTS: usize = 64;

/// A 2D point or vector in fixed-point subunits.
#[derive(Clone, Copy, Debug, PartialEq, Eq, Structural, Hash)]
pub struct Pointf {
    pub x: i64,
    pub y: i64,
}

/// Dot product, as unbounded integers.
pub open spec fn dot(ax: int, ay: int, bx: int, by: int) -> int {
    ax * bx + ay * by
}

/// Cross product (z component), as unbounded integers.
pub open spec fn cross(ax: int, ay: int, bx: int, by: int) -> int {
    ax * by - ay * bx
}

impl Pointf {
    pub open spec fn in_bounds(self) -> bool {
        -COORD_LIMIT <= self.x <= COORD_LIMIT && -COORD_LIMIT <= self.y <= COORD_LIMIT
    }

    pub fn new(x: i64, y: i64) -> (r: Self)
        ensures
            r.x == x,
            r.y == y,
    {
        Pointf { x, y }
    }

    /// 90-degree rotation `(-y, x)`: turns a polygon edge into a candidate
    /// separating axis.
    pub fn ortho(&self) -> (r: Pointf)
        requires
            -4 * COORD_LIMIT <= self.x <= 4 * COORD_LIMIT,
            -4 * COORD_LIMIT <= self.y <= 4 * COORD_LIMIT,
        ensures
            r.x == -self.y,
            r.y == self.x,
    {
        Pointf { x: -self.y, y: self.x }
    }

    /// Euclidean length, rounded down to the nearest subunit.
    pub fn len(&self) -> (r: i64)
        requires
            -4 * COORD_LIMIT <= self.x <= 4 * COORD_LIMIT,
            -4 * COORD_LIMIT <= self.y <= 4 * COORD_LIMIT,
        ensures
            r == isqrt_spec(self.x * self.x + self.y * self.y),
            0 <= r <= 6_000_000_000,
    {
        proof {
            assert(self.x * self.x <= 16_000_000_000_000_000_000 && self.x * self.x >= 0
                && self.y * self.y <= 16_000_000_000_000_000_000 && self.y * self.y >= 0)
                by (nonlinear_arith)
                requires
                    -4_000_000_000 <= self.x <= 4_000_000_000,
                    -4_000_000_000 <= self.y <= 4_000_000_000,
            ;
        }
        let xx: u64 = (self.x as i128 * self.x as i128) as u64;
        let yy: u64 = (self.y as i128 * self.y as i128) as u64;
        isqrt_u64(xx, yy)
    }
}

/// The unique `r >= 0` with `r * r <= n < (r + 1) * (r + 1)`.
pub open spec fn isqrt_spec(n: int) -> int {
    choose|r: int| r >= 0 && #[trigger] (r * r) <= n && n < (r + 1) * (r + 1)
}

proof fn lemma_isqrt_unique(n: int, r: int)
    requires
        r >= 0,
        r * r <= n,
        n < (r + 1) * (r + 1),
    ensures
        isqrt_spec(n) == r,
{
    assert(exists|q: int| q >= 0 && q * q <= n && #[trigger] ((q + 1) * (q + 1)) > n) by {
        assert(r >= 0 && r * r <= n && (r + 1) * (r + 1) > n);
    }
    let q = isqrt_spec(n);
    assert(q >= 0 && q * q <= n && n < (q + 1) * (q + 1));
    if q < r {
        assert((q + 1) * (q + 1) <= r * r) by (nonlinear_arith)
            requires 0 <= q, q < r;
        assert(false);
    }
    if r < q {
        assert((r + 1) * (r + 1) <= q * q) by (nonlinear_arith)
            requires 0 <= r, r < q;
        assert(false);
    }
}

/// Floor square root of `a + b` (the two addends let a caller pass squares
/// that each fit in `u64` while their sum may not).
fn isqrt_u64(a: u64, b: u64) -> (r: i64)
    requires
        a <= 16_000_000_000_000_000_000,
        b <= 16_000_000_000_000_000_000,
    ensures
        r == isqrt_spec(a + b),
        0 <= r <= 6_000_000_000,
{
    let n: u128 = a as u128 + b as u128;
    let mut lo: u128 = 0;
    let mut hi: u128 = 6_000_000_001;
    proof {
        assert((6_000_000_001 as int) * (6_000_000_001 as int) > a + b) by (nonlinear_arith)
            requires
                a <= 16_000_000_000_000_000_000,
                b <= 16_000_000_000_000_000_000,
        ;
    }
    // Binary search for the greatest lo with lo * lo <= n.
    while lo + 1 < hi
        invariant
            n == a + b,
            0 <= lo < hi <= 6_000_000_001,
            lo * lo <= n,
            n < hi * hi,
        decreases hi - lo,
    {
        let mid: u128 = lo + (hi - lo) / 2;
        proof {
            assert(lo < mid < hi);
            assert(mid * mid < u128::MAX) by (nonlinear_arith)
                requires 0 < mid <= 6_000_000_001;
        }
        if mid * mid <= n {
            lo = mid;
        } else {
            hi = mid;
        }
    }
    proof {
        assert(hi == lo + 1);
        lemma_isqrt_unique(a + b, lo as int);
    }
    lo as i64
}

/// x component of the directed edge leaving vertex `i` (cyclic).
pub open spec fn edge_x(o: Seq<Pointf>, i: int) -> int {
    o[(i + 1) % (o.len() as int)].x - o[i].x
}

/// y component of the directed edge leaving vertex `i` (cyclic).
pub open spec fn edge_y(o: Seq<Pointf>, i: int) -> int {
    o[(i + 1) % (o.len() as int)].y - o[i].y
}

/// The turn from edge `i` to edge `i + 1` must not be an exact continuation:
/// consecutive edges that are parallel and point the same way (equivalently,
/// an interior turn angle of a flat 180 degrees) are rejected, mirroring the
/// convexity validation of the game model.
pub open spec fn turn_ok(o: Seq<Pointf>, i: int) -> bool {
    let n = o.len() as int;
    let j = (i + 1) % n;
    !(cross(edge_x(o, i), edge_y(o, i), edge_x(o, j), edge_y(o, j)) == 0
        && dot(edge_x(o, i), edge_y(o, i), edge_x(o, j), edge_y(o, j)) > 0)
}

/// A usable polygon outline: nonempty, few enough vertices, coordinates in
/// range, no zero-length edge, and every turn valid.
pub open spec fn wf_outline(o: Seq<Pointf>) -> bool {
    &&& 1 <= o.len() <= MAX_VERTS
    &&& forall|i: int| 0 <= i < o.len() ==> (#[trigger] o[i]).in_bounds()
    &&& forall|i: int| 0 <= i < o.len() ==> !(#[trigger] edge_x(o, i) == 0 && edge_y(o, i) == 0)
    &&& forall|i: int| 0 <= i < o.len() ==> #[trigger] turn_ok(o, i)
}

/// Least x coordinate of a nonempty outline.
pub open spec fn min_x(o: Seq<Pointf>) -> int
    decreases o.len(),
{
    if o.len() <= 1 {
        o[0].x as int
    } else {
        let m = min_x(o.drop_last());
        if o.last().x < m { o.last().x as int } else { m }
    }
}

/// Greatest x coordinate of a nonempty outline.
pub open spec fn max_x(o: Seq<Pointf>) -> int
    decreases o.len(),
{
    if o.len() <= 1 {
        o[0].x as int
    } else {
        let m = max_x(o.drop_last());
        if o.last().x > m { o.last().x as int } else { m }
    }
}

/// Least y coordinate of a nonempty outline.
pub open spec fn min_y(o: Seq<Pointf>) -> int
    decreases o.len(),
{
    if o.len() <= 1 {
        o[0].y as int
    } else {
        let m = min_y(o.drop_last());
        if o.last().y < m { o.last().y as int } else { m }
    }
}

/// Greatest y coordinate of a nonempty outline.
pub open spec fn max_y(o: Seq<Pointf>) -> int
    decreases o.len(),
{
    if o.len() <= 1 {
        o[0].y as int
    } else {
        let m = max_y(o.drop_last());
        if o.last().y > m { o.last().y as int } else { m }
    }
}

/// Sum of the x coordinates.
pub open spec fn sum_x(o: Seq<Pointf>) -> int
    decreases o.len(),
{
    if o.len() == 0 { 0 } else { sum_x(o.drop_last()) + o.last().x }
}

/// Sum of the y coordinates.
pub open spec fn sum_y(o: Seq<Pointf>) -> int
    decreases o.len(),
{
    if o.len() == 0 { 0 } else { sum_y(o.drop_last()) + o.last().y }
}

/// Division truncated toward zero (what the centroid computation uses).
pub open spec fn trunc_div(a: int, b: int) -> int {
    if a >= 0 { a / b } else { -((-a) / b) }
}

/// A convex polygon with its derived fields cached on construction.
#[derive(Clone, Debug, Hash)]
pub struct Polygon {
    pub outline: Vec<Pointf>,
    /// Directed edge vectors, `outline[i+1] - outline[i]`, cyclic.
    pub vectors: Vec<Pointf>,
    /// Truncated arithmetic mean of the vertices.
    pub center: Pointf,
    pub highest_point: i64,
    pub lowest_point: i64,
    pub rightmost_point: i64,
    pub leftmost_point: i64,
}

/// All cached fields agree with the outline.
pub open spec fn poly_wf(p: Polygon) -> bool {
    &&& wf_outline(p.outline@)
    &&& p.vectors@.len() == p.outline@.len()
    &&& forall|i: int| 0 <= i < p.outline@.len()
        ==> (#[trigger] p.vectors@[i]).x == edge_x(p.outline@, i)
            && p.vectors@[i].y == edge_y(p.outline@, i)
    &&& p.leftmost_point == min_x(p.outline@)
    &&& p.rightmost_point == max_x(p.outline@)
    &&& p.lowest_point == min_y(p.outline@)
    &&& p.highest_point == max_y(p.outline@)
    &&& p.center.x == trunc_div(sum_x(p.outline@), p.outline@.len() as int)
    &&& p.center.y == trunc_div(sum_y(p.outline@), p.outline@.len() as int)
}


impl PartialEq for Polygon {
    /// Structural equality over the outline's vertex coordinates; the
    /// cached fields are functions of the outline, so they need no
    /// comparison of their own.
    fn eq(&self, other: &Self) -> (r: bool) {
        let n: usize = self.outline.len();
        if n != other.outline.len() {
            return false;
        }
        let mut i: usize = 0;
        while i < n
            invariant
                n == self.outline@.len(),
                n == other.outline@.len(),
                0 <= i <= n,
                forall|k: int| 0 <= k < i ==> self.outline@[k] == other.outline@[k],
            decreases n - i,
        {
            let a = self.outline[i];
            let b = other.outline[i];
            if a.x != b.x || a.y != b.y {
                proof {
                    assert(self.outline@[i as int] != other.outline@[i as int]);
                }
                return false;
            }
            i = i + 1;
        }
        proof {
            assert(self.outline@ =~= other.outline@);
        }
        true
    }
}

impl vstd::std_specs::cmp::PartialEqSpecImpl for Polygon {
    open spec fn obeys_eq_spec() -> bool {
        true
    }

    open spec fn eq_spec(&self, other: &Self) -> bool {
        self.outline@ == other.outline@
    }
}

/// Truncating division of bounded `i64` values.
fn div_trunc_i64(a: i64, b: i64) -> (r: i64)
    requires
        0 < b,
        -1_000_000_000_000 <= a <= 1_000_000_000_000,
    ensures
        r == trunc_div(a as int, b as int),
{
    if a >= 0 {
        let q: u64 = a as u64 / b as u64;
        proof {
            assert(a as u64 / b as u64 <= a as u64) by (nonlinear_arith)
                requires b as u64 >= 1;
        }
        q as i64
    } else {
        let m: u64 = (-a) as u64;
        let q: u64 = m / b as u64;
        proof {
            assert(m / (b as u64) <= m) by (nonlinear_arith)
                requires b as u64 >= 1;
        }
        -(q as i64)
    }
}

impl Polygon {
    /// Builds a polygon and all its cached fields from an outline, or
    /// reports an unusable outline (out-of-range coordinate, zero-length
    /// edge, or a flat same-direction turn) by returning `None`.
    pub fn new(outline: Vec<Pointf>) -> (r: Option<Polygon>)
        ensures
            r is Some <==> wf_outline(outline@),
            r matches Some(p) ==> poly_wf(p) && p.outline@ == outline@,
    {
        let n: usize = outline.len();
        if n < 1 || n > MAX_VERTS {
            return None;
        }
        // Coordinate range check.
        let mut i: usize = 0;
        while i < n
            invariant
                n == outline@.len(),
                0 <= i <= n,
                forall|k: int| 0 <= k < i ==> (#[trigger] outline@[k]).in_bounds(),
            decreases n - i,
        {
            let p = outline[i];
            if p.x < -COORD_LIMIT || p.x > COORD_LIMIT || p.y < -COORD_LIMIT || p.y > COORD_LIMIT {
                return None;
            }
            i = i + 1;
        }
        // Edge vectors.
        let mut vectors: Vec<Pointf> = Vec::new();
        let mut i: usize = 0;
        while i < n
            invariant
                n == outline@.len(),
                1 <= n <= MAX_VERTS,
                0 <= i <= n,
                forall|k: int| 0 <= k < n ==> (#[trigger] outline@[k]).in_bounds(),
                vectors@.len() == i,
                forall|k: int| 0 <= k < i
                    ==> (#[trigger] vectors@[k]).x == edge_x(outline@, k)
                        && vectors@[k].y == edge_y(outline@, k),
            decreases n - i,
        {
            let j: usize = if i + 1 == n { 0 } else { i + 1 };
            proof {
                if i + 1 == n {
                    lemma_mod_self_0(n as int);
                } else {
                    lemma_small_mod((i + 1) as nat, n as nat);
                }
                assert(j as int == ((i as int) + 1) % (n as int));
            }
            let vx: i64 = outline[j].x - outline[i].x;
            let vy: i64 = outline[j].y - outline[i].y;
            vectors.push(Pointf { x: vx, y: vy });
            i = i + 1;
        }
        proof {
            assert forall|k: int| 0 <= k < n implies
                -2 * COORD_LIMIT <= (#[trigger] vectors@[k]).x <= 2 * COORD_LIMIT
                && -2 * COORD_LIMIT <= vectors@[k].y <= 2 * COORD_LIMIT
            by {
                assert(vectors@[k].x == edge_x(outline@, k));
                assert(outline@[k].in_bounds());
                assert(0 <= (k + 1) % (n as int) < n) by {
                    if k + 1 == n {
                        lemma_mod_self_0(n as int);
                    } else {
                        lemma_small_mod((k + 1) as nat, n as nat);
                    }
                }
                assert(outline@[(k + 1) % (n as int)].in_bounds());
            }
        }
        // Zero-edge and turn validation.
        let mut i: usize = 0;
        while i < n
            invariant
                n == outline@.len(),
                1 <= n <= MAX_VERTS,
                0 <= i <= n,
                forall|k: int| 0 <= k < n ==> (#[trigger] outline@[k]).in_bounds(),
                vectors@.len() == n,
                forall|k: int| 0 <= k < n
                    ==> (#[trigger] vectors@[k]).x == edge_x(outline@, k)
                        && vectors@[k].y == edge_y(outline@, k),
                forall|k: int| 0 <= k < n
                    ==> -2 * COORD_LIMIT <= (#[trigger] vectors@[k]).x <= 2 * COORD_LIMIT
                        && -2 * COORD_LIMIT <= vectors@[k].y <= 2 * COORD_LIMIT,
                forall|k: int| 0 <= k < i
                    ==> !(#[trigger] edge_x(outline@, k) == 0 && edge_y(outline@, k) == 0),
                forall|k: int| 0 <= k < i ==> #[trigger] turn_ok(outline@, k),
            decreases n - i,
        {
            let u = vectors[i];
            if u.x == 0 && u.y == 0 {
                return None;
            }
            let j: usize = if i + 1 == n { 0 } else { i + 1 };
            proof {
                if i + 1 == n {
                    lemma_mod_self_0(n as int);
                } else {
                    lemma_small_mod((i + 1) as nat, n as nat);
                }
                assert(j as int == ((i as int) + 1) % (n as int));
            }
            let v = vectors[j];
            proof {
                lemma_edge_products_bounded(u.x as int, u.y as int, v.x as int, v.y as int);
            }
            let cr: i128 = u.x as i128 * v.y as i128 - u.y as i128 * v.x as i128;
            let dt: i128 = u.x as i128 * v.x as i128 + u.y as i128 * v.y as i128;
            if cr == 0 && dt > 0 {
                proof {
                    assert(!turn_ok(outline@, i as int));
                }
                return None;
            }
            i = i + 1;
        }
        // Extents and centroid sums.
        let p0 = outline[0];
        let mut lo_x: i64 = p0.x;
        let mut hi_x: i64 = p0.x;
        let mut lo_y: i64 = p0.y;
        let mut hi_y: i64 = p0.y;
        let mut sx: i64 = p0.x;
        let mut sy: i64 = p0.y;
        let mut i: usize = 1;
        proof {
            let t1 = outline@.take(1);
            assert(t1.len() == 1);
            assert(t1.last() == outline@[0]);
            assert(t1.drop_last() =~= Seq::<Pointf>::empty());
            assert(sum_x(t1.drop_last()) == 0);
            assert(sum_y(t1.drop_last()) == 0);
            assert(sum_x(t1) == outline@[0].x);
            assert(sum_y(t1) == outline@[0].y);
        }
        while i < n
            invariant
                n == outline@.len(),
                1 <= n <= MAX_VERTS,
                1 <= i <= n,
                forall|k: int| 0 <= k < n ==> (#[trigger] outline@[k]).in_bounds(),
                lo_x == min_x(outline@.take(i as int)),
                hi_x == max_x(outline@.take(i as int)),
                lo_y == min_y(outline@.take(i as int)),
                hi_y == max_y(outline@.take(i as int)),
                sx == sum_x(outline@.take(i as int)),
                sy == sum_y(outline@.take(i as int)),
                -COORD_LIMIT <= lo_x <= COORD_LIMIT,
                -COORD_LIMIT <= hi_x <= COORD_LIMIT,
                -COORD_LIMIT <= lo_y <= COORD_LIMIT,
                -COORD_LIMIT <= hi_y <= COORD_LIMIT,
                -(i as int) * COORD_LIMIT <= sx <= (i as int) * COORD_LIMIT,
                -(i as int) * COORD_LIMIT <= sy <= (i as int) * COORD_LIMIT,
            decreases n - i,
        {
            let p = outline[i];
            proof {
                let t = outline@.take((i + 1) as int);
                assert(t.drop_last() =~= outline@.take(i as int));
                assert(t.last() == outline@[i as int]);
                assert(t.len() == i + 1 > 1);
                assert(-(i as int) * COORD_LIMIT - COORD_LIMIT
                    == -(((i + 1) as int) * COORD_LIMIT)) by (nonlinear_arith);
                assert((i as int) * COORD_LIMIT + COORD_LIMIT
                    == ((i + 1) as int) * COORD_LIMIT) by (nonlinear_arith);
            }
            if p.x < lo_x { lo_x = p.x; }
            if p.x > hi_x { hi_x = p.x; }
            if p.y < lo_y { lo_y = p.y; }
            if p.y > hi_y { hi_y = p.y; }
            sx = sx + p.x;
            sy = sy + p.y;
            i = i + 1;
        }
        proof {
            assert(outline@.take(n as int) =~= outline@);
            assert((n as int) * COORD_LIMIT <= 64 * 1_000_000_000) by (nonlinear_arith)
                requires 1 <= n <= 64;
        }
        let cx: i64 = div_trunc_i64(sx, n as i64);
        let cy: i64 = div_trunc_i64(sy, n as i64);
        Some(Polygon {
            outline,
            vectors,
            center: Pointf { x: cx, y: cy },
            highest_point: hi_y,
            lowest_point: lo_y,
            rightmost_point: hi_x,
            leftmost_point: lo_x,
        })
    }
}

/// Polygon construction is deterministic: two well-formed polygons built
/// from the same outline carry identical cached fields (edge vectors,
/// extents and centroid), because each cached field is a function of the
/// outline alone.
pub proof fn lemma_polygon_cache_deterministic(p1: Polygon, p2: Polygon)
    requires
        poly_wf(p1),
        poly_wf(p2),
        p1.outline@ == p2.outline@,
    ensures
        p1.vectors@ == p2.vectors@,
        p1.center == p2.center,
        p1.leftmost_point == p2.leftmost_point,
        p1.rightmost_point == p2.rightmost_point,
        p1.lowest_point == p2.lowest_point,
        p1.highest_point == p2.highest_point,
{
    assert(p1.vectors@ =~= p2.vectors@);
}

/// Products of two in-range edge components stay far inside `i128`.
proof fn lemma_edge_products_bounded(ux: int, uy: int, vx: int, vy: int)
    by (nonlinear_arith)
    requires
        -2_000_000_000 <= ux <= 2_000_000_000,
        -2_000_000_000 <= uy <= 2_000_000_000,
        -2_000_000_000 <= vx <= 2_000_000_000,
        -2_000_000_000 <= vy <= 2_000_000_000,
    ensures
        -8_000_000_000_000_000_000 <= ux * vy - uy * vx <= 8_000_000_000_000_000_000,
        -8_000_000_000_000_000_000 <= ux * vx + uy * vy <= 8_000_000_000_000_000_000,
        -4_000_000_000_000_000_000 <= ux * vx <= 4_000_000_000_000_000_000,
        -4_000_000_000_000_000_000 <= ux * vy <= 4_000_000_000_000_000_000,
        -4_000_000_000_000_000_000 <= uy * vx <= 4_000_000_000_000_000_000,
        -4_000_000_000_000_000_000 <= uy * vy <= 4_000_000_000_000_000_000,
{
}

} // verus!
