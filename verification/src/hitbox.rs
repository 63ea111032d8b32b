//! Separating-axis collision test between convex polygons.
//!
//! The candidate axes are the 90-degree rotations of both polygons' edge
//! vectors.  If the projections of the two polygons onto some candidate axis
//! are disjoint there is no collision; otherwise the axis with the smallest
//! penetration (overlap depth divided by axis length) wins, ties keeping the
//! first axis encountered, and the result is the minimum penetration vector:
//! that axis, oriented against the centroid displacement and scaled by
//! `depth / |axis|^2`.  All comparisons and the scaling are exact: the ratio
//! `depth^2 / |axis|^2` of two axes is compared by a two-level integer
//! division, never by floating point.

use vstd::prelude::*;
use vstd::arithmetic::div_mod::lemma_small_mod;
use vstd::arithmetic::div_mod::lemma_mod_self_0;
use vstd::arithmetic::div_mod::lemma_fundamental_div_mod;
use vstd::arithmetic::div_mod::lemma_div_is_ordered;
use vstd::arithmetic::div_mod::lemma_div_multiples_vanish;
use vstd::arithmetic::div_mod::lemma_div_pos_is_pos;

use crate::geometry::COORD_LIMIT;
use crate::geometry::MAX_VERTS;
use crate::geometry::Pointf;
use crate::geometry::Polygon;
use crate::geometry::cross;
use crate::geometry::edge_x;
use crate::geometry::edge_y;
use crate::geometry::poly_wf;
use crate::geometry::sum_x;
use crate::geometry::sum_y;
use crate::geometry::wf_outline;

verus! {

/// A collision shape: a convex polygon.
#[derive(Clone, Debug, Hash)]
pub struct Hitbox {
    pub polygon: Polygon,
}

impl PartialEq for Hitbox {
    /// Structural equality over the outline's vertex coordinates.
    fn eq(&self, other: &Self) -> (r: bool) {
        self.polygon == other.polygon
    }
}

impl vstd::std_specs::cmp::PartialEqSpecImpl for Hitbox {
    open spec fn obeys_eq_spec() -> bool {
        true
    }

    open spec fn eq_spec(&self, other: &Self) -> bool {
        self.polygon.outline@ == other.polygon.outline@
    }
}

/// The wrapped polygon's cached fields agree with its outline.
pub open spec fn hitbox_wf(h: Hitbox) -> bool {
    poly_wf(h.polygon)
}

/// Projection of a point onto an axis (an unnormalized dot product).
pub open spec fn proj(p: Pointf, ax: int, ay: int) -> int {
    p.x * ax + p.y * ay
}

/// Least projection of a nonempty outline onto an axis.
pub open spec fn pmin(o: Seq<Pointf>, ax: int, ay: int) -> int
    decreases o.len(),
{
    if o.len() <= 1 {
        proj(o[0], ax, ay)
    } else {
        let m = pmin(o.drop_last(), ax, ay);
        if proj(o.last(), ax, ay) < m { proj(o.last(), ax, ay) } else { m }
    }
}

/// Greatest projection of a nonempty outline onto an axis.
pub open spec fn pmax(o: Seq<Pointf>, ax: int, ay: int) -> int
    decreases o.len(),
{
    if o.len() <= 1 {
        proj(o[0], ax, ay)
    } else {
        let m = pmax(o.drop_last(), ax, ay);
        if proj(o.last(), ax, ay) > m { proj(o.last(), ax, ay) } else { m }
    }
}

/// Number of candidate separating axes for outlines `a` and `b`.
pub open spec fn n_axes(a: Seq<Pointf>, b: Seq<Pointf>) -> int {
    a.len() + b.len() as int
}

/// x component of candidate axis `k`: the ortho-rotation of an edge of `a`
/// (for `k < a.len()`) or of `b` (for the rest).
pub open spec fn cand_ax_x(a: Seq<Pointf>, b: Seq<Pointf>, k: int) -> int {
    if k < a.len() { -edge_y(a, k) } else { -edge_y(b, k - a.len()) }
}

/// y component of candidate axis `k`.
pub open spec fn cand_ax_y(a: Seq<Pointf>, b: Seq<Pointf>, k: int) -> int {
    if k < a.len() { edge_x(a, k) } else { edge_x(b, k - a.len()) }
}

/// The projections of `a` and `b` onto candidate axis `k` overlap (touching
/// counts as overlap).
pub open spec fn axis_overlaps(a: Seq<Pointf>, b: Seq<Pointf>, k: int) -> bool {
    let ax = cand_ax_x(a, b, k);
    let ay = cand_ax_y(a, b, k);
    pmax(a, ax, ay) >= pmin(b, ax, ay) && pmax(b, ax, ay) >= pmin(a, ax, ay)
}

/// Some candidate axis separates the two outlines: no collision.
pub open spec fn separated(a: Seq<Pointf>, b: Seq<Pointf>) -> bool {
    exists|k: int| 0 <= k < n_axes(a, b) && !(#[trigger] axis_overlaps(a, b, k))
}

/// Overlap depth along candidate axis `k` (in projection units of that axis).
pub open spec fn depth(a: Seq<Pointf>, b: Seq<Pointf>, k: int) -> int {
    let ax = cand_ax_x(a, b, k);
    let ay = cand_ax_y(a, b, k);
    let d1 = pmax(b, ax, ay) - pmin(a, ax, ay);
    let d2 = pmax(a, ax, ay) - pmin(b, ax, ay);
    if d1 < d2 { d1 } else { d2 }
}

/// Squared length of candidate axis `k`.
pub open spec fn axis_len2(a: Seq<Pointf>, b: Seq<Pointf>, k: int) -> int {
    let ax = cand_ax_x(a, b, k);
    let ay = cand_ax_y(a, b, k);
    ax * ax + ay * ay
}

/// `d1 / sqrt(A1) < d2 / sqrt(A2)`, compared exactly on the squares.
pub open spec fn ratio_lt(d1: int, a1: int, d2: int, a2: int) -> bool {
    d1 * d1 * a2 < d2 * d2 * a1
}

/// Index of the candidate axis with the smallest penetration among the
/// first `k + 1` candidates; ties keep the earliest axis.
pub open spec fn best_axis(a: Seq<Pointf>, b: Seq<Pointf>, k: int) -> int
    decreases k,
{
    if k <= 0 {
        0
    } else {
        let p = best_axis(a, b, k - 1);
        if ratio_lt(depth(a, b, k), axis_len2(a, b, k), depth(a, b, p), axis_len2(a, b, p)) {
            k
        } else {
            p
        }
    }
}

/// Sign test used to orient the result: the dot product of the displacement
/// from `a`'s centroid to `b`'s centroid with the axis, scaled by the
/// (positive) product of the vertex counts so it is exact.
pub open spec fn disp_dot(a: Seq<Pointf>, b: Seq<Pointf>, ax: int, ay: int) -> int {
    (sum_x(b) * a.len() - sum_x(a) * b.len()) * ax
        + (sum_y(b) * a.len() - sum_y(a) * b.len()) * ay
}

/// x component of the minimum penetration direction of `a` against `b`
/// (meaningful only when the outlines are not separated).
pub open spec fn mpv_x(a: Seq<Pointf>, b: Seq<Pointf>) -> int {
    let k = best_axis(a, b, n_axes(a, b) - 1);
    let ax = cand_ax_x(a, b, k);
    let ay = cand_ax_y(a, b, k);
    if disp_dot(a, b, ax, ay) > 0 { -ax } else { ax }
}

/// y component of the minimum penetration direction of `a` against `b`.
pub open spec fn mpv_y(a: Seq<Pointf>, b: Seq<Pointf>) -> int {
    let k = best_axis(a, b, n_axes(a, b) - 1);
    let ax = cand_ax_x(a, b, k);
    let ay = cand_ax_y(a, b, k);
    if disp_dot(a, b, ax, ay) > 0 { -ay } else { ay }
}

/// Absolute value.
pub open spec fn abs_i(v: int) -> int {
    if v >= 0 { v } else { -v }
}

/// Overlap depth along the selected axis.
pub open spec fn sel_depth(a: Seq<Pointf>, b: Seq<Pointf>) -> int {
    depth(a, b, best_axis(a, b, n_axes(a, b) - 1))
}

/// Squared length of the selected axis.
pub open spec fn sel_len2(a: Seq<Pointf>, b: Seq<Pointf>) -> int {
    axis_len2(a, b, best_axis(a, b, n_axes(a, b) - 1))
}

/// x component of the depth-scaled minimum penetration vector: the
/// oriented axis times `depth / |axis|^2`, as an exact rational truncated
/// towards zero to whole subunits.
pub open spec fn mpv_scaled_x(a: Seq<Pointf>, b: Seq<Pointf>) -> int {
    crate::geometry::trunc_div(mpv_x(a, b) * sel_depth(a, b), sel_len2(a, b))
}

/// y component of the depth-scaled minimum penetration vector.
pub open spec fn mpv_scaled_y(a: Seq<Pointf>, b: Seq<Pointf>) -> int {
    crate::geometry::trunc_div(mpv_y(a, b) * sel_depth(a, b), sel_len2(a, b))
}

/// Axis-aligned bounding boxes of the two polygons overlap (inclusive).
pub open spec fn rects_overlap(p: Polygon, q: Polygon) -> bool {
    p.leftmost_point <= q.rightmost_point && p.rightmost_point >= q.leftmost_point
        && p.lowest_point <= q.highest_point && p.highest_point >= q.lowest_point
}

/// Bounds of one projection term.
proof fn lemma_proj_bounded(p: Pointf, ax: int, ay: int)
    by (nonlinear_arith)
    requires
        -1_000_000_000 <= p.x <= 1_000_000_000,
        -1_000_000_000 <= p.y <= 1_000_000_000,
        -2_000_000_000 <= ax <= 2_000_000_000,
        -2_000_000_000 <= ay <= 2_000_000_000,
    ensures
        -2_000_000_000_000_000_000 <= p.x * ax <= 2_000_000_000_000_000_000,
        -2_000_000_000_000_000_000 <= p.y * ay <= 2_000_000_000_000_000_000,
        -4_000_000_000_000_000_000 <= proj(p, ax, ay) <= 4_000_000_000_000_000_000,
        -1_000_000_000 * (abs_i(ax) + abs_i(ay)) <= proj(p, ax, ay)
            <= 1_000_000_000 * (abs_i(ax) + abs_i(ay)),
{
}

/// Projection of one point, exactly.
fn proj_exec(p: Pointf, ax: i64, ay: i64) -> (r: i64)
    requires
        p.in_bounds(),
        -2_000_000_000 <= ax <= 2_000_000_000,
        -2_000_000_000 <= ay <= 2_000_000_000,
    ensures
        r == proj(p, ax as int, ay as int),
        -4_000_000_000_000_000_000 <= r <= 4_000_000_000_000_000_000,
        -1_000_000_000 * (abs_i(ax as int) + abs_i(ay as int)) <= r
            <= 1_000_000_000 * (abs_i(ax as int) + abs_i(ay as int)),
{
    proof {
        lemma_proj_bounded(p, ax as int, ay as int);
    }
    (p.x as i128 * ax as i128 + p.y as i128 * ay as i128) as i64
}

/// Least and greatest projection of an outline onto an axis.
fn project_range(o: &Vec<Pointf>, ax: i64, ay: i64) -> (r: (i64, i64))
    requires
        1 <= o@.len() <= MAX_VERTS,
        forall|i: int| 0 <= i < o@.len() ==> (#[trigger] o@[i]).in_bounds(),
        -2_000_000_000 <= ax <= 2_000_000_000,
        -2_000_000_000 <= ay <= 2_000_000_000,
    ensures
        r.0 == pmin(o@, ax as int, ay as int),
        r.1 == pmax(o@, ax as int, ay as int),
        -4_000_000_000_000_000_000 <= r.0 <= 4_000_000_000_000_000_000,
        -4_000_000_000_000_000_000 <= r.1 <= 4_000_000_000_000_000_000,
        -1_000_000_000 * (abs_i(ax as int) + abs_i(ay as int)) <= r.0
            <= 1_000_000_000 * (abs_i(ax as int) + abs_i(ay as int)),
        -1_000_000_000 * (abs_i(ax as int) + abs_i(ay as int)) <= r.1
            <= 1_000_000_000 * (abs_i(ax as int) + abs_i(ay as int)),
{
    let n: usize = o.len();
    let mut mn: i64 = proj_exec(o[0], ax, ay);
    let mut mx: i64 = mn;
    let mut i: usize = 1;
    proof {
        let t1 = o@.take(1);
        assert(t1.len() == 1);
        assert(t1[0] == o@[0]);
        assert(pmin(t1, ax as int, ay as int) == proj(o@[0], ax as int, ay as int));
        assert(pmax(t1, ax as int, ay as int) == proj(o@[0], ax as int, ay as int));
    }
    while i < n
        invariant
            n == o@.len(),
            1 <= i <= n,
            forall|k: int| 0 <= k < n ==> (#[trigger] o@[k]).in_bounds(),
            -2_000_000_000 <= ax <= 2_000_000_000,
            -2_000_000_000 <= ay <= 2_000_000_000,
            mn == pmin(o@.take(i as int), ax as int, ay as int),
            mx == pmax(o@.take(i as int), ax as int, ay as int),
            -4_000_000_000_000_000_000 <= mn <= 4_000_000_000_000_000_000,
            -4_000_000_000_000_000_000 <= mx <= 4_000_000_000_000_000_000,
            -1_000_000_000 * (abs_i(ax as int) + abs_i(ay as int)) <= mn
                <= 1_000_000_000 * (abs_i(ax as int) + abs_i(ay as int)),
            -1_000_000_000 * (abs_i(ax as int) + abs_i(ay as int)) <= mx
                <= 1_000_000_000 * (abs_i(ax as int) + abs_i(ay as int)),
        decreases n - i,
    {
        let pr: i64 = proj_exec(o[i], ax, ay);
        proof {
            let t = o@.take((i + 1) as int);
            assert(t.drop_last() =~= o@.take(i as int));
            assert(t.last() == o@[i as int]);
            assert(t.len() == i + 1 > 1);
        }
        if pr < mn { mn = pr; }
        if pr > mx { mx = pr; }
        i = i + 1;
    }
    proof {
        assert(o@.take(n as int) =~= o@);
    }
    (mn, mx)
}

/// Exact comparison of `n1 / a1` with `n2 / a2` by quotients, then by
/// cross-multiplied remainders.
proof fn lemma_fraction_compare(n1: int, a1: int, n2: int, a2: int)
    requires
        a1 >= 1,
        a2 >= 1,
        n1 >= 0,
        n2 >= 0,
    ensures
        (n1 * a2 < n2 * a1) <==> (n1 / a1 < n2 / a2
            || (n1 / a1 == n2 / a2 && (n1 % a1) * a2 < (n2 % a2) * a1)),
{
    let q1 = n1 / a1;
    let r1 = n1 % a1;
    let q2 = n2 / a2;
    let r2 = n2 % a2;
    lemma_fundamental_div_mod(n1, a1);
    lemma_fundamental_div_mod(n2, a2);
    assert((n1 * a2 < n2 * a1) <==> (q1 < q2 || (q1 == q2 && r1 * a2 < r2 * a1)))
        by (nonlinear_arith)
        requires
            a1 >= 1,
            a2 >= 1,
            n1 == q1 * a1 + r1,
            n2 == q2 * a2 + r2,
            0 <= r1 < a1,
            0 <= r2 < a2,
    ;
}

/// `d1^2 / a1 < d2^2 / a2`, computed exactly with 128-bit integers.
fn ratio_lt_exec(d1: i64, a1: i64, d2: i64, a2: i64) -> (r: bool)
    requires
        0 <= d1 <= 8_000_000_000_000_000_000,
        0 <= d2 <= 8_000_000_000_000_000_000,
        1 <= a1 <= 8_000_000_000_000_000_000,
        1 <= a2 <= 8_000_000_000_000_000_000,
    ensures
        r == ratio_lt(d1 as int, a1 as int, d2 as int, a2 as int),
{
    proof {
        assert(d1 * d1 <= 64_000_000_000_000_000_000_000_000_000_000_000_000
            && d1 * d1 >= 0
            && d2 * d2 <= 64_000_000_000_000_000_000_000_000_000_000_000_000
            && d2 * d2 >= 0) by (nonlinear_arith)
            requires
                0 <= d1 <= 8_000_000_000_000_000_000,
                0 <= d2 <= 8_000_000_000_000_000_000,
        ;
    }
    let n1: u128 = d1 as u128 * d1 as u128;
    let n2: u128 = d2 as u128 * d2 as u128;
    let q1: u128 = n1 / (a1 as u128);
    let r1: u128 = n1 % (a1 as u128);
    let q2: u128 = n2 / (a2 as u128);
    let r2: u128 = n2 % (a2 as u128);
    proof {
        lemma_fraction_compare(n1 as int, a1 as int, n2 as int, a2 as int);
        assert(r1 < a1 as u128 && r2 < a2 as u128);
        assert(r1 * (a2 as u128) < 64_000_000_000_000_000_000_000_000_000_000_000_000
            && r2 * (a1 as u128) < 64_000_000_000_000_000_000_000_000_000_000_000_000)
            by (nonlinear_arith)
            requires
                0 <= r1 < 8_000_000_000_000_000_000 as u128,
                0 <= r2 < 8_000_000_000_000_000_000 as u128,
                1 <= a1 as u128 <= 8_000_000_000_000_000_000 as u128,
                1 <= a2 as u128 <= 8_000_000_000_000_000_000 as u128,
        ;
    }
    if q1 != q2 {
        q1 < q2
    } else {
        r1 * (a2 as u128) < r2 * (a1 as u128)
    }
}

/// The edge vectors of a well-formed polygon are bounded and none is zero.
proof fn lemma_vectors_usable(p: Polygon)
    requires
        poly_wf(p),
    ensures
        forall|i: int| 0 <= i < p.vectors@.len()
            ==> -2_000_000_000 <= (#[trigger] p.vectors@[i]).x <= 2_000_000_000
                && -2_000_000_000 <= p.vectors@[i].y <= 2_000_000_000
                && !(p.vectors@[i].x == 0 && p.vectors@[i].y == 0),
{
    let o = p.outline@;
    let n = o.len() as int;
    assert forall|i: int| 0 <= i < p.vectors@.len() implies
        -2_000_000_000 <= (#[trigger] p.vectors@[i]).x <= 2_000_000_000
            && -2_000_000_000 <= p.vectors@[i].y <= 2_000_000_000
            && !(p.vectors@[i].x == 0 && p.vectors@[i].y == 0)
    by {
        assert(p.vectors@[i].x == edge_x(o, i) && p.vectors@[i].y == edge_y(o, i));
        assert(o[i].in_bounds());
        assert(0 <= (i + 1) % n < n) by {
            if i + 1 == n {
                lemma_mod_self_0(n);
            } else {
                lemma_small_mod((i + 1) as nat, n as nat);
            }
        }
        assert(o[(i + 1) % n].in_bounds());
        assert(!(edge_x(o, i) == 0 && edge_y(o, i) == 0));
    }
}

/// A nonzero axis has a positive squared length.
proof fn lemma_axis_len2_pos(ax: int, ay: int)
    by (nonlinear_arith)
    requires
        !(ax == 0 && ay == 0),
        -2_000_000_000 <= ax <= 2_000_000_000,
        -2_000_000_000 <= ay <= 2_000_000_000,
    ensures
        1 <= ax * ax + ay * ay <= 8_000_000_000_000_000_000,
{
}

/// Sums of the coordinates of an outline.
fn sum_coords(o: &Vec<Pointf>) -> (r: (i64, i64))
    requires
        1 <= o@.len() <= MAX_VERTS,
        forall|i: int| 0 <= i < o@.len() ==> (#[trigger] o@[i]).in_bounds(),
    ensures
        r.0 == sum_x(o@),
        r.1 == sum_y(o@),
        -64_000_000_000 <= r.0 <= 64_000_000_000,
        -64_000_000_000 <= r.1 <= 64_000_000_000,
{
    let n: usize = o.len();
    let mut sx: i64 = 0;
    let mut sy: i64 = 0;
    let mut i: usize = 0;
    proof {
        assert(o@.take(0) =~= Seq::<Pointf>::empty());
    }
    while i < n
        invariant
            n == o@.len() <= MAX_VERTS,
            0 <= i <= n,
            forall|k: int| 0 <= k < n ==> (#[trigger] o@[k]).in_bounds(),
            sx == sum_x(o@.take(i as int)),
            sy == sum_y(o@.take(i as int)),
            -(i as int) * COORD_LIMIT <= sx <= (i as int) * COORD_LIMIT,
            -(i as int) * COORD_LIMIT <= sy <= (i as int) * COORD_LIMIT,
        decreases n - i,
    {
        let p = o[i];
        proof {
            let t = o@.take((i + 1) as int);
            assert(t.drop_last() =~= o@.take(i as int));
            assert(t.last() == o@[i as int]);
            assert(-(i as int) * COORD_LIMIT - COORD_LIMIT
                == -(((i + 1) as int) * COORD_LIMIT)) by (nonlinear_arith);
            assert((i as int) * COORD_LIMIT + COORD_LIMIT
                == ((i + 1) as int) * COORD_LIMIT) by (nonlinear_arith);
        }
        sx = sx + p.x;
        sy = sy + p.y;
        i = i + 1;
    }
    proof {
        assert(o@.take(n as int) =~= o@);
        assert((n as int) * COORD_LIMIT <= 64_000_000_000_000_000_000) by (nonlinear_arith)
            requires 1 <= n <= 64;
    }
    (sx, sy)
}


/// A direction component times `d / a2`, bounded by three units of the
/// coordinate limit.
proof fn lemma_scale_bound(ux: int, uy: int, c: int, d: int, a2: int)
    by (nonlinear_arith)
    requires
        0 <= ux,
        0 <= uy,
        c == ux || c == uy,
        a2 == ux * ux + uy * uy,
        1 <= a2,
        0 <= d,
        d <= 2_000_000_000 * (ux + uy),
    ensures
        0 <= c * d <= 3_000_000_000 * a2,
{
}

/// Scale an oriented axis by `d / a2`, truncating each component towards
/// zero.
fn scale_mpv(dir: Pointf, d: i64, a2: i64) -> (r: Pointf)
    requires
        -2_000_000_000 <= dir.x <= 2_000_000_000,
        -2_000_000_000 <= dir.y <= 2_000_000_000,
        a2 == dir.x * dir.x + dir.y * dir.y,
        1 <= a2,
        0 <= d,
        d <= 2_000_000_000 * (abs_i(dir.x as int) + abs_i(dir.y as int)),
    ensures
        r.x == crate::geometry::trunc_div(dir.x * d, a2 as int),
        r.y == crate::geometry::trunc_div(dir.y * d, a2 as int),
        -3_000_000_000 <= r.x <= 3_000_000_000,
        -3_000_000_000 <= r.y <= 3_000_000_000,
{
    let ux: u64 = if dir.x >= 0 { dir.x as u64 } else { (-dir.x) as u64 };
    let uy: u64 = if dir.y >= 0 { dir.y as u64 } else { (-dir.y) as u64 };
    proof {
        assert(ux == abs_i(dir.x as int) && uy == abs_i(dir.y as int));
        assert(a2 == ux * ux + uy * uy) by (nonlinear_arith)
            requires
                ux == abs_i(dir.x as int),
                uy == abs_i(dir.y as int),
                a2 == dir.x * dir.x + dir.y * dir.y,
        ;
        lemma_scale_bound(ux as int, uy as int, ux as int, d as int, a2 as int);
        lemma_scale_bound(ux as int, uy as int, uy as int, d as int, a2 as int);
    }
    let nx: u128 = ux as u128 * d as u128;
    let ny: u128 = uy as u128 * d as u128;
    let qx: u128 = nx / (a2 as u128);
    let qy: u128 = ny / (a2 as u128);
    proof {
        lemma_div_is_ordered(nx as int, a2 * 3_000_000_000, a2 as int);
        lemma_div_is_ordered(ny as int, a2 * 3_000_000_000, a2 as int);
        lemma_div_multiples_vanish(3_000_000_000, a2 as int);
        lemma_div_pos_is_pos(nx as int, a2 as int);
        lemma_div_pos_is_pos(ny as int, a2 as int);
        assert(qx <= 3_000_000_000 && qy <= 3_000_000_000);
        // Truncating division of a signed product with a nonnegative
        // factor follows the sign of the direction component.
        assert(dir.x >= 0 ==> dir.x * d == ux * d) by (nonlinear_arith)
            requires dir.x >= 0 ==> ux == dir.x;
        assert(dir.x < 0 ==> dir.x * d == -(ux * d)) by (nonlinear_arith)
            requires dir.x < 0 ==> ux == -dir.x;
        assert(dir.y >= 0 ==> dir.y * d == uy * d) by (nonlinear_arith)
            requires dir.y >= 0 ==> uy == dir.y;
        assert(dir.y < 0 ==> dir.y * d == -(uy * d)) by (nonlinear_arith)
            requires dir.y < 0 ==> uy == -dir.y;
    }
    let rx: i64 = if dir.x >= 0 { qx as i64 } else { -(qx as i64) };
    let ry: i64 = if dir.y >= 0 { qy as i64 } else { -(qy as i64) };
    Pointf { x: rx, y: ry }
}

impl Hitbox {
    /// Builds a hitbox from an outline; `None` on an unusable outline.
    pub fn new(outline: Vec<Pointf>) -> (r: Option<Hitbox>)
        ensures
            r is Some <==> wf_outline(outline@),
            r matches Some(h) ==> hitbox_wf(h) && h.polygon.outline@ == outline@,
    {
        match Polygon::new(outline) {
            Some(polygon) => Some(Hitbox { polygon }),
            None => None,
        }
    }

    /// Core of the separating-axis test.  Returns `None` when some
    /// candidate axis separates the polygons, and otherwise the minimum
    /// penetration direction (the winning axis, oriented against the
    /// displacement from `self`'s centroid to `other`'s centroid — the
    /// direction that pushes `other` out of `self`) together with the
    /// overlap depth along it and its squared length.  The stepper
    /// classifies and snaps by the direction's signs and zero pattern,
    /// exactly as the game model does.
    pub(crate) fn collides_dir(&self, other: &Hitbox) -> (r: Option<(Pointf, i64, i64)>)
        requires
            hitbox_wf(*self),
            hitbox_wf(*other),
        ensures
            r is Some <==> !separated(self.polygon.outline@, other.polygon.outline@),
            r matches Some(t) ==> ({
                let a = self.polygon.outline@;
                let b = other.polygon.outline@;
                &&& t.0.x == mpv_x(a, b)
                &&& t.0.y == mpv_y(a, b)
                &&& t.1 == sel_depth(a, b)
                &&& t.2 == sel_len2(a, b)
                &&& 0 <= t.1
                &&& t.1 <= 2_000_000_000 * (abs_i(t.0.x as int) + abs_i(t.0.y as int))
                &&& 1 <= t.2
                &&& t.2 == t.0.x * t.0.x + t.0.y * t.0.y
                &&& -2_000_000_000 <= t.0.x <= 2_000_000_000
                &&& -2_000_000_000 <= t.0.y <= 2_000_000_000
            }),
    {
        let ghost a = self.polygon.outline@;
        let ghost b = other.polygon.outline@;
        proof {
            lemma_vectors_usable(self.polygon);
            lemma_vectors_usable(other.polygon);
        }
        let n1: usize = self.polygon.vectors.len();
        let n2: usize = other.polygon.vectors.len();
        let total: usize = n1 + n2;
        let mut best_k: usize = 0;
        let mut best_ax: i64 = 0;
        let mut best_ay: i64 = 0;
        let mut best_d: i64 = 0;
        let mut best_a2: i64 = 1;
        let mut k: usize = 0;
        while k < total
            invariant
                hitbox_wf(*self),
                hitbox_wf(*other),
                a == self.polygon.outline@,
                b == other.polygon.outline@,
                n1 == a.len(),
                n2 == b.len(),
                total == n1 + n2,
                0 <= k <= total,
                forall|i: int| 0 <= i < n1
                    ==> -2_000_000_000 <= (#[trigger] self.polygon.vectors@[i]).x <= 2_000_000_000
                        && -2_000_000_000 <= self.polygon.vectors@[i].y <= 2_000_000_000
                        && !(self.polygon.vectors@[i].x == 0 && self.polygon.vectors@[i].y == 0),
                forall|i: int| 0 <= i < n2
                    ==> -2_000_000_000 <= (#[trigger] other.polygon.vectors@[i]).x <= 2_000_000_000
                        && -2_000_000_000 <= other.polygon.vectors@[i].y <= 2_000_000_000
                        && !(other.polygon.vectors@[i].x == 0 && other.polygon.vectors@[i].y == 0),
                forall|j: int| 0 <= j < k ==> #[trigger] axis_overlaps(a, b, j),
                k > 0 ==> best_k < k
                    && best_k == best_axis(a, b, k - 1)
                    && best_ax == cand_ax_x(a, b, best_k as int)
                    && best_ay == cand_ax_y(a, b, best_k as int)
                    && best_d == depth(a, b, best_k as int)
                    && best_a2 == axis_len2(a, b, best_k as int)
                    && 0 <= best_d <= 8_000_000_000_000_000_000
                    && best_d <= 2_000_000_000 * (abs_i(best_ax as int) + abs_i(best_ay as int))
                    && 1 <= best_a2 <= 8_000_000_000_000_000_000
                    && best_a2 == best_ax * best_ax + best_ay * best_ay
                    && -2_000_000_000 <= best_ax <= 2_000_000_000
                    && -2_000_000_000 <= best_ay <= 2_000_000_000,
            decreases total - k,
        {
            let e: Pointf = if k < n1 {
                self.polygon.vectors[k]
            } else {
                other.polygon.vectors[k - n1]
            };
            let ax: i64 = -e.y;
            let ay: i64 = e.x;
            proof {
                assert(ax == cand_ax_x(a, b, k as int) && ay == cand_ax_y(a, b, k as int));
                assert(!(ax == 0 && ay == 0));
                lemma_axis_len2_pos(ax as int, ay as int);
            }
            let (mn1, mx1) = project_range(&self.polygon.outline, ax, ay);
            let (mn2, mx2) = project_range(&other.polygon.outline, ax, ay);
            if !(mx1 >= mn2 && mx2 >= mn1) {
                proof {
                    assert(!axis_overlaps(a, b, k as int));
                    assert(separated(a, b));
                }
                return None;
            }
            let dd1: i64 = mx2 - mn1;
            let dd2: i64 = mx1 - mn2;
            let d: i64 = if dd1 < dd2 { dd1 } else { dd2 };
            proof {
                assert(0 <= ax * ax <= 4_000_000_000_000_000_000
                    && 0 <= ay * ay <= 4_000_000_000_000_000_000) by (nonlinear_arith)
                    requires
                        -2_000_000_000 <= ax <= 2_000_000_000,
                        -2_000_000_000 <= ay <= 2_000_000_000,
                ;
            }
            let a2: i64 = (ax as i128 * ax as i128 + ay as i128 * ay as i128) as i64;
            proof {
                assert(ax * ax + ay * ay == axis_len2(a, b, k as int));
                assert(d == depth(a, b, k as int));
                assert(0 <= d <= 8_000_000_000_000_000_000);
                // Twice the depth is at most the sum of the two projection
                // widths, which the axis-relative band bounds.
                assert(2 * d <= dd1 + dd2);
                assert(d <= 2_000_000_000 * (abs_i(ax as int) + abs_i(ay as int)));
            }
            if k == 0 {
                best_k = 0;
                best_ax = ax;
                best_ay = ay;
                best_d = d;
                best_a2 = a2;
            } else {
                if ratio_lt_exec(d, a2, best_d, best_a2) {
                    best_k = k;
                    best_ax = ax;
                    best_ay = ay;
                    best_d = d;
                    best_a2 = a2;
                }
            }
            k = k + 1;
        }
        proof {
            assert(!separated(a, b));
        }
        let (sxa, sya) = sum_coords(&self.polygon.outline);
        let (sxb, syb) = sum_coords(&other.polygon.outline);
        proof {
            assert(sxb * n1 <= 4_096_000_000_000 && sxb * n1 >= -4_096_000_000_000
                && sxa * n2 <= 4_096_000_000_000 && sxa * n2 >= -4_096_000_000_000
                && syb * n1 <= 4_096_000_000_000 && syb * n1 >= -4_096_000_000_000
                && sya * n2 <= 4_096_000_000_000 && sya * n2 >= -4_096_000_000_000)
                by (nonlinear_arith)
                requires
                    -64_000_000_000 <= sxa <= 64_000_000_000,
                    -64_000_000_000 <= sxb <= 64_000_000_000,
                    -64_000_000_000 <= sya <= 64_000_000_000,
                    -64_000_000_000 <= syb <= 64_000_000_000,
                    1 <= n1 <= 64,
                    1 <= n2 <= 64,
            ;
        }
        let dnx: i128 = sxb as i128 * n1 as i128 - sxa as i128 * n2 as i128;
        let dny: i128 = syb as i128 * n1 as i128 - sya as i128 * n2 as i128;
        let dd: i128 = {
            proof {
                assert(dnx * best_ax <= 20_000_000_000_000_000_000_000_000
                    && dnx * best_ax >= -20_000_000_000_000_000_000_000_000
                    && dny * best_ay <= 20_000_000_000_000_000_000_000_000
                    && dny * best_ay >= -20_000_000_000_000_000_000_000_000)
                    by (nonlinear_arith)
                    requires
                        -8_192_000_000_000 <= dnx <= 8_192_000_000_000,
                        -8_192_000_000_000 <= dny <= 8_192_000_000_000,
                        -2_000_000_000 <= best_ax <= 2_000_000_000,
                        -2_000_000_000 <= best_ay <= 2_000_000_000,
                ;
            }
            dnx * best_ax as i128 + dny * best_ay as i128
        };
        proof {
            assert(best_k == best_axis(a, b, n_axes(a, b) - 1));
            assert(dd == disp_dot(a, b, best_ax as int, best_ay as int));
        }
        if dd > 0 {
            proof {
                assert((-best_ax) * (-best_ax) + (-best_ay) * (-best_ay)
                    == best_ax * best_ax + best_ay * best_ay) by (nonlinear_arith);
                assert(abs_i(-best_ax as int) == abs_i(best_ax as int)
                    && abs_i(-best_ay as int) == abs_i(best_ay as int));
            }
            Some((Pointf::new(-best_ax, -best_ay), best_d, best_a2))
        } else {
            Some((Pointf::new(best_ax, best_ay), best_d, best_a2))
        }
    }

    /// Separating-axis collision test.  Returns `None` when some candidate
    /// axis separates the polygons, and otherwise the minimum penetration
    /// vector: the winning axis, oriented to push `other` out of `self`,
    /// scaled by `depth / |axis|^2` — the exact rational push vector,
    /// truncated towards zero to whole subunits.  The float model added a
    /// 1e-10 epsilon to this scale, whose only effect was to keep a
    /// zero-depth contact's vector nonzero; that float artifact is
    /// dropped, so a touching contact yields the zero vector (the contact
    /// is still reported as `Some`).
    pub fn collides(&self, other: &Hitbox) -> (r: Option<Pointf>)
        requires
            hitbox_wf(*self),
            hitbox_wf(*other),
        ensures
            r is Some <==> !separated(self.polygon.outline@, other.polygon.outline@),
            r matches Some(p) ==> p.x == mpv_scaled_x(self.polygon.outline@, other.polygon.outline@)
                && p.y == mpv_scaled_y(self.polygon.outline@, other.polygon.outline@),
    {
        match self.collides_dir(other) {
            Some((dir, d, a2)) => Some(scale_mpv(dir, d, a2)),
            None => None,
        }
    }

    /// Cheap axis-aligned overlap test for two rectangular hitboxes,
    /// from the cached extents.
    pub fn collides_as_rect(&self, other: &Hitbox) -> (r: bool)
        requires
            hitbox_wf(*self),
            hitbox_wf(*other),
            self.polygon.outline@.len() == 4,
            other.polygon.outline@.len() == 4,
        ensures
            r == rects_overlap(self.polygon, other.polygon),
    {
        let sx1: i64 = self.polygon.leftmost_point;
        let sx2: i64 = self.polygon.rightmost_point;
        let sy1: i64 = self.polygon.lowest_point;
        let sy2: i64 = self.polygon.highest_point;
        let ox1: i64 = other.polygon.leftmost_point;
        let ox2: i64 = other.polygon.rightmost_point;
        let oy1: i64 = other.polygon.lowest_point;
        let oy2: i64 = other.polygon.highest_point;
        sx1 <= ox2 && sx2 >= ox1 && sy1 <= oy2 && sy2 >= oy1
    }
}

/// The outline of the axis-aligned rectangle `[x1, x2] x [y1, y2]`.
pub open spec fn rect_outline(x1: i64, x2: i64, y1: i64, y2: i64) -> Seq<Pointf> {
    seq![
        Pointf { x: x1, y: y1 },
        Pointf { x: x2, y: y1 },
        Pointf { x: x2, y: y2 },
        Pointf { x: x1, y: y2 },
    ]
}

/// An axis-aligned rectangle outline is well formed and its extents are
/// its defining coordinates.
pub proof fn lemma_rect_outline(x1: i64, x2: i64, y1: i64, y2: i64, o: Seq<Pointf>)
    requires
        -COORD_LIMIT <= x1 < x2 <= COORD_LIMIT,
        -COORD_LIMIT <= y1 < y2 <= COORD_LIMIT,
        o == rect_outline(x1, x2, y1, y2),
    ensures
        wf_outline(o),
        crate::geometry::min_x(o) == x1,
        crate::geometry::max_x(o) == x2,
        crate::geometry::min_y(o) == y1,
        crate::geometry::max_y(o) == y2,
{
    assert(o.len() == 4);
    assert(o[0] == Pointf { x: x1, y: y1 } && o[1] == Pointf { x: x2, y: y1 }
        && o[2] == Pointf { x: x2, y: y2 } && o[3] == Pointf { x: x1, y: y2 });
    assert(edge_x(o, 0) == x2 - x1 && edge_y(o, 0) == 0);
    assert(edge_x(o, 1) == 0 && edge_y(o, 1) == y2 - y1);
    assert(edge_x(o, 2) == x1 - x2 && edge_y(o, 2) == 0);
    assert(edge_x(o, 3) == 0 && edge_y(o, 3) == y1 - y2);
    assert forall|i: int| 0 <= i < 4 implies (#[trigger] o[i]).in_bounds() by {
    }
    assert forall|i: int| 0 <= i < 4 implies
        !(#[trigger] edge_x(o, i) == 0 && edge_y(o, i) == 0) by {
    }
    assert forall|i: int| 0 <= i < 4 implies #[trigger] crate::geometry::turn_ok(o, i) by {
        if i == 0 {
            assert(crate::geometry::cross(edge_x(o, 0), edge_y(o, 0), edge_x(o, 1), edge_y(o, 1))
                == (x2 - x1) * (y2 - y1));
            assert((x2 - x1) * (y2 - y1) > 0) by (nonlinear_arith)
                requires x1 < x2, y1 < y2;
        } else if i == 1 {
            assert(crate::geometry::cross(edge_x(o, 1), edge_y(o, 1), edge_x(o, 2), edge_y(o, 2))
                == -((y2 - y1) * (x1 - x2)));
            assert((y2 - y1) * (x1 - x2) < 0) by (nonlinear_arith)
                requires x1 < x2, y1 < y2;
        } else if i == 2 {
            assert(crate::geometry::cross(edge_x(o, 2), edge_y(o, 2), edge_x(o, 3), edge_y(o, 3))
                == (x1 - x2) * (y1 - y2));
            assert((x1 - x2) * (y1 - y2) > 0) by (nonlinear_arith)
                requires x1 < x2, y1 < y2;
        } else {
            assert(crate::geometry::cross(edge_x(o, 3), edge_y(o, 3), edge_x(o, 0), edge_y(o, 0))
                == -((y1 - y2) * (x2 - x1)));
            assert((y1 - y2) * (x2 - x1) < 0) by (nonlinear_arith)
                requires x1 < x2, y1 < y2;
        }
    }
    let o3 = o.drop_last();
    let o2 = o3.drop_last();
    let o1 = o2.drop_last();
    assert(o1.len() == 1 && o1[0] == o[0]);
    assert(o2.len() == 2 && o2.last() == o[1]);
    assert(o3.len() == 3 && o3.last() == o[2]);
    assert(o.last() == o[3]);
    assert(crate::geometry::min_x(o1) == x1 && crate::geometry::max_x(o1) == x1
        && crate::geometry::min_y(o1) == y1 && crate::geometry::max_y(o1) == y1);
    assert(crate::geometry::min_x(o2) == x1 && crate::geometry::max_x(o2) == x2
        && crate::geometry::min_y(o2) == y1 && crate::geometry::max_y(o2) == y1);
    assert(crate::geometry::min_x(o3) == x1 && crate::geometry::max_x(o3) == x2
        && crate::geometry::min_y(o3) == y1 && crate::geometry::max_y(o3) == y2);
    assert(crate::geometry::min_x(o) == x1 && crate::geometry::max_x(o) == x2
        && crate::geometry::min_y(o) == y1 && crate::geometry::max_y(o) == y2);
}

/// Every edge of the outline is axis-aligned (horizontal or vertical).
pub open spec fn axis_aligned_edges(o: Seq<Pointf>) -> bool {
    forall|i: int| 0 <= i < o.len() ==> #[trigger] edge_x(o, i) == 0 || edge_y(o, i) == 0
}

/// Comparisons scale by a positive factor.
proof fn lemma_cmp_scale(p: int, q: int, s: int)
    by (nonlinear_arith)
    requires
        s > 0,
    ensures
        (p * s >= q * s) <==> (p >= q),
        (p * s <= q * s) <==> (p <= q),
{
}

/// Comparisons flip under a negative factor.
proof fn lemma_cmp_scale_neg(p: int, q: int, s: int)
    by (nonlinear_arith)
    requires
        s < 0,
    ensures
        (p * s >= q * s) <==> (p <= q),
        (p * s <= q * s) <==> (p >= q),
{
}

/// Projections onto a vertical axis `(0, s)` are the y extents scaled.
proof fn lemma_proj_extents_vert(o: Seq<Pointf>, s: int)
    requires
        1 <= o.len(),
        s != 0,
    ensures
        s > 0 ==> pmin(o, 0, s) == crate::geometry::min_y(o) * s
            && pmax(o, 0, s) == crate::geometry::max_y(o) * s,
        s < 0 ==> pmin(o, 0, s) == crate::geometry::max_y(o) * s
            && pmax(o, 0, s) == crate::geometry::min_y(o) * s,
    decreases o.len(),
{
    if o.len() == 1 {
        assert(proj(o[0], 0, s) == o[0].y * s);
    } else {
        let t = o.drop_last();
        lemma_proj_extents_vert(t, s);
        let ly = o.last().y as int;
        assert(proj(o.last(), 0, s) == ly * s);
        if s > 0 {
            lemma_cmp_scale(ly, crate::geometry::min_y(t), s);
            lemma_cmp_scale(ly, crate::geometry::max_y(t), s);
        } else {
            lemma_cmp_scale_neg(ly, crate::geometry::min_y(t), s);
            lemma_cmp_scale_neg(ly, crate::geometry::max_y(t), s);
        }
    }
}

/// Projections onto a horizontal axis `(s, 0)` are the x extents scaled.
proof fn lemma_proj_extents_horiz(o: Seq<Pointf>, s: int)
    requires
        1 <= o.len(),
        s != 0,
    ensures
        s > 0 ==> pmin(o, s, 0) == crate::geometry::min_x(o) * s
            && pmax(o, s, 0) == crate::geometry::max_x(o) * s,
        s < 0 ==> pmin(o, s, 0) == crate::geometry::max_x(o) * s
            && pmax(o, s, 0) == crate::geometry::min_x(o) * s,
    decreases o.len(),
{
    if o.len() == 1 {
        assert(proj(o[0], s, 0) == o[0].x * s);
    } else {
        let t = o.drop_last();
        lemma_proj_extents_horiz(t, s);
        let lx = o.last().x as int;
        assert(proj(o.last(), s, 0) == lx * s);
        if s > 0 {
            lemma_cmp_scale(lx, crate::geometry::min_x(t), s);
            lemma_cmp_scale(lx, crate::geometry::max_x(t), s);
        } else {
            lemma_cmp_scale_neg(lx, crate::geometry::min_x(t), s);
            lemma_cmp_scale_neg(lx, crate::geometry::max_x(t), s);
        }
    }
}

/// When every edge has a zero x component the vertices share one x.
proof fn lemma_chain_const_x(o: Seq<Pointf>, i: int)
    requires
        1 <= o.len(),
        forall|k: int| 0 <= k < o.len() ==> #[trigger] edge_x(o, k) == 0,
        0 <= i < o.len(),
    ensures
        o[i].x == o[0].x,
    decreases i,
{
    if i > 0 {
        lemma_chain_const_x(o, i - 1);
        assert(edge_x(o, i - 1) == 0);
        lemma_small_mod(i as nat, o.len());
        assert(o[i].x == o[i - 1].x);
    }
}

/// When every edge has a zero y component the vertices share one y.
proof fn lemma_chain_const_y(o: Seq<Pointf>, i: int)
    requires
        1 <= o.len(),
        forall|k: int| 0 <= k < o.len() ==> #[trigger] edge_y(o, k) == 0,
        0 <= i < o.len(),
    ensures
        o[i].y == o[0].y,
    decreases i,
{
    if i > 0 {
        lemma_chain_const_y(o, i - 1);
        assert(edge_y(o, i - 1) == 0);
        lemma_small_mod(i as nat, o.len());
        assert(o[i].y == o[i - 1].y);
    }
}

/// Extents of a constant coordinate collapse.
proof fn lemma_const_x_extents(o: Seq<Pointf>, c: int)
    requires
        1 <= o.len(),
        forall|i: int| 0 <= i < o.len() ==> (#[trigger] o[i]).x == c,
    ensures
        crate::geometry::min_x(o) == c,
        crate::geometry::max_x(o) == c,
    decreases o.len(),
{
    if o.len() > 1 {
        lemma_const_x_extents(o.drop_last(), c);
    }
}

/// Extents of a constant coordinate collapse.
proof fn lemma_const_y_extents(o: Seq<Pointf>, c: int)
    requires
        1 <= o.len(),
        forall|i: int| 0 <= i < o.len() ==> (#[trigger] o[i]).y == c,
    ensures
        crate::geometry::min_y(o) == c,
        crate::geometry::max_y(o) == c,
    decreases o.len(),
{
    if o.len() > 1 {
        lemma_const_y_extents(o.drop_last(), c);
    }
}

/// The separating-axis test and the axis-aligned overlap test agree on
/// any pair of non-degenerate axis-aligned hitboxes, whatever the vertex
/// order and winding: `collides` finds a collision exactly when
/// `collides_as_rect` reports one.
pub proof fn lemma_rect_collision_agreement(a: Hitbox, b: Hitbox)
    requires
        hitbox_wf(a),
        hitbox_wf(b),
        axis_aligned_edges(a.polygon.outline@),
        axis_aligned_edges(b.polygon.outline@),
        a.polygon.leftmost_point < a.polygon.rightmost_point,
        a.polygon.lowest_point < a.polygon.highest_point,
        b.polygon.leftmost_point < b.polygon.rightmost_point,
        b.polygon.lowest_point < b.polygon.highest_point,
    ensures
        !separated(a.polygon.outline@, b.polygon.outline@)
            <==> rects_overlap(a.polygon, b.polygon),
{
    let oa = a.polygon.outline@;
    let ob = b.polygon.outline@;
    let na = oa.len() as int;
    let nb = ob.len() as int;
    let xcond = a.polygon.leftmost_point <= b.polygon.rightmost_point
        && a.polygon.rightmost_point >= b.polygon.leftmost_point;
    let ycond = a.polygon.lowest_point <= b.polygon.highest_point
        && a.polygon.highest_point >= b.polygon.lowest_point;
    assert(rects_overlap(a.polygon, b.polygon) == (xcond && ycond));
    // Every candidate axis is horizontal or vertical, and overlap along
    // it is exactly the matching interval condition.
    assert forall|k: int| 0 <= k < n_axes(oa, ob) implies
        (cand_ax_x(oa, ob, k) == 0 ==> (#[trigger] axis_overlaps(oa, ob, k)) == ycond)
        && (cand_ax_x(oa, ob, k) != 0 ==> axis_overlaps(oa, ob, k) == xcond) by {
        let ax = cand_ax_x(oa, ob, k);
        let ay = cand_ax_y(oa, ob, k);
        if k < na {
            assert(edge_x(oa, k) == 0 || edge_y(oa, k) == 0);
            assert(!(edge_x(oa, k) == 0 && edge_y(oa, k) == 0));
        } else {
            assert(edge_x(ob, k - na) == 0 || edge_y(ob, k - na) == 0);
            assert(!(edge_x(ob, k - na) == 0 && edge_y(ob, k - na) == 0));
        }
        if ax == 0 {
            assert(ay != 0);
            lemma_proj_extents_vert(oa, ay);
            lemma_proj_extents_vert(ob, ay);
            if ay > 0 {
                lemma_cmp_scale(a.polygon.highest_point as int,
                    b.polygon.lowest_point as int, ay);
                lemma_cmp_scale(b.polygon.highest_point as int,
                    a.polygon.lowest_point as int, ay);
            } else {
                lemma_cmp_scale_neg(a.polygon.lowest_point as int,
                    b.polygon.highest_point as int, ay);
                lemma_cmp_scale_neg(b.polygon.lowest_point as int,
                    a.polygon.highest_point as int, ay);
            }
            assert(axis_overlaps(oa, ob, k) == ycond);
        } else {
            assert(ay == 0);
            lemma_proj_extents_horiz(oa, ax);
            lemma_proj_extents_horiz(ob, ax);
            if ax > 0 {
                lemma_cmp_scale(a.polygon.rightmost_point as int,
                    b.polygon.leftmost_point as int, ax);
                lemma_cmp_scale(b.polygon.rightmost_point as int,
                    a.polygon.leftmost_point as int, ax);
            } else {
                lemma_cmp_scale_neg(a.polygon.leftmost_point as int,
                    b.polygon.rightmost_point as int, ax);
                lemma_cmp_scale_neg(b.polygon.leftmost_point as int,
                    a.polygon.rightmost_point as int, ax);
            }
            assert(axis_overlaps(oa, ob, k) == xcond);
        }
    }
    if xcond && ycond {
        assert forall|k: int| 0 <= k < n_axes(oa, ob)
            implies #[trigger] axis_overlaps(oa, ob, k) by {
        }
        assert(!separated(oa, ob));
    } else if !ycond {
        // A nonzero x spread forces a horizontal edge of `a`, whose axis
        // is vertical and witnesses the separation.
        if forall|i: int| 0 <= i < na ==> #[trigger] edge_x(oa, i) == 0 {
            assert forall|i: int| 0 <= i < na implies (#[trigger] oa[i]).x == oa[0].x by {
                lemma_chain_const_x(oa, i);
            }
            lemma_const_x_extents(oa, oa[0].x as int);
            assert(false);
        }
        let i = choose|i: int| 0 <= i < na && #[trigger] edge_x(oa, i) != 0;
        assert(edge_y(oa, i) == 0);
        assert(cand_ax_x(oa, ob, i) == 0 && cand_ax_y(oa, ob, i) == edge_x(oa, i));
        assert(!axis_overlaps(oa, ob, i));
        assert(separated(oa, ob));
    } else {
        // A nonzero y spread forces a vertical edge of `a`, whose axis is
        // horizontal and witnesses the separation.
        if forall|i: int| 0 <= i < na ==> #[trigger] edge_y(oa, i) == 0 {
            assert forall|i: int| 0 <= i < na implies (#[trigger] oa[i]).y == oa[0].y by {
                lemma_chain_const_y(oa, i);
            }
            lemma_const_y_extents(oa, oa[0].y as int);
            assert(false);
        }
        let i = choose|i: int| 0 <= i < na && #[trigger] edge_y(oa, i) != 0;
        assert(edge_x(oa, i) == 0);
        assert(cand_ax_x(oa, ob, i) == -edge_y(oa, i) && cand_ax_x(oa, ob, i) != 0);
        assert(!axis_overlaps(oa, ob, i));
        assert(separated(oa, ob));
    }
}

/// The x component of the displacement numerator used to orient results.
pub open spec fn disp_x(a: Seq<Pointf>, b: Seq<Pointf>) -> int {
    sum_x(b) * a.len() - sum_x(a) * b.len()
}

/// The y component of the displacement numerator.
pub open spec fn disp_y(a: Seq<Pointf>, b: Seq<Pointf>) -> int {
    sum_y(b) * a.len() - sum_y(a) * b.len()
}

/// x component of the axis the collision test selects for `(a, b)`.
pub open spec fn sel_axis_x(a: Seq<Pointf>, b: Seq<Pointf>) -> int {
    cand_ax_x(a, b, best_axis(a, b, n_axes(a, b) - 1))
}

/// y component of the axis the collision test selects for `(a, b)`.
pub open spec fn sel_axis_y(a: Seq<Pointf>, b: Seq<Pointf>) -> int {
    cand_ax_y(a, b, best_axis(a, b, n_axes(a, b) - 1))
}

/// For parallel vectors, a dot product transfers between them.
#[verifier::rlimit(100)]
proof fn lemma_parallel_dot_swap(dx: int, dy: int, r1x: int, r1y: int, r2x: int, r2y: int)
    requires
        r1x * r2y - r1y * r2x == 0,
    ensures
        (dx * r1x + dy * r1y) * r2x == (dx * r2x + dy * r2y) * r1x,
        (dx * r1x + dy * r1y) * r2y == (dx * r2x + dy * r2y) * r1y,
{
    assert((dx * r1x + dy * r1y) * r2x
        == dx * (r1x * r2x) + dy * (r1y * r2x)) by (nonlinear_arith);
    assert((dx * r2x + dy * r2y) * r1x
        == dx * (r2x * r1x) + dy * (r2y * r1x)) by (nonlinear_arith);
    assert(r1y * r2x == r2y * r1x) by (nonlinear_arith)
        requires r1x * r2y - r1y * r2x == 0;
    assert(r1x * r2x == r2x * r1x) by (nonlinear_arith);
    assert((dx * r1x + dy * r1y) * r2y
        == dx * (r1x * r2y) + dy * (r1y * r2y)) by (nonlinear_arith);
    assert((dx * r2x + dy * r2y) * r1y
        == dx * (r2x * r1y) + dy * (r2y * r1y)) by (nonlinear_arith);
    assert(r1x * r2y == r2x * r1y) by (nonlinear_arith)
        requires r1x * r2y - r1y * r2x == 0;
    assert(r1y * r2y == r2y * r1y) by (nonlinear_arith);
}

/// Combine the two component transfers into the dot-product identity.
proof fn lemma_parallel_transfer(t1: int, t2: int, r1x: int, r1y: int, r2x: int, r2y: int)
    by (nonlinear_arith)
    requires
        t1 * r2x == t2 * r1x,
        t1 * r2y == t2 * r1y,
    ensures
        t1 * (r2x * r1x + r2y * r1y) == t2 * (r1x * r1x + r1y * r1y),
{
}

/// The selected axis index stays among the candidates.
proof fn lemma_best_axis_range(a: Seq<Pointf>, b: Seq<Pointf>, k: int)
    requires
        k >= 0,
    ensures
        0 <= best_axis(a, b, k) <= k,
    decreases k,
{
    if k > 0 {
        lemma_best_axis_range(a, b, k - 1);
    }
}

/// Truncated scaling by a nonnegative rational keeps the sign (or zero).
proof fn lemma_trunc_scale_sign(c: int, d: int, q: int)
    requires
        0 <= d,
        1 <= q,
    ensures
        c >= 0 ==> crate::geometry::trunc_div(c * d, q) >= 0,
        c <= 0 ==> crate::geometry::trunc_div(c * d, q) <= 0,
{
    if c >= 0 {
        assert(c * d >= 0) by (nonlinear_arith)
            requires c >= 0, d >= 0;
        lemma_div_pos_is_pos(c * d, q);
    } else {
        assert(c * d <= 0) by (nonlinear_arith)
            requires c <= 0, d >= 0;
        lemma_div_pos_is_pos(-(c * d), q);
    }
}

/// The collision test is antisymmetric in direction: when testing the
/// same overlapping pair both ways selects parallel axes, and the
/// centroids are separated along both, the two penetration directions
/// point opposite ways, and so do the depth-scaled vectors that
/// `collides` returns (both dot products are at most zero).  The
/// statement excludes a pair whose two selected axes are not parallel,
/// and coincident centroids (two identical squares give equal directions).
pub proof fn lemma_mpv_antisymmetric(a: Seq<Pointf>, b: Seq<Pointf>)
    requires
        1 <= a.len(),
        1 <= b.len(),
        !separated(a, b),
        !separated(b, a),
        cross(sel_axis_x(a, b), sel_axis_y(a, b), sel_axis_x(b, a), sel_axis_y(b, a)) == 0,
        !(sel_axis_x(a, b) == 0 && sel_axis_y(a, b) == 0),
        !(sel_axis_x(b, a) == 0 && sel_axis_y(b, a) == 0),
        disp_x(a, b) * sel_axis_x(a, b) + disp_y(a, b) * sel_axis_y(a, b) != 0,
        disp_x(a, b) * sel_axis_x(b, a) + disp_y(a, b) * sel_axis_y(b, a) != 0,
    ensures
        mpv_x(a, b) * mpv_x(b, a) + mpv_y(a, b) * mpv_y(b, a) <= 0,
        mpv_scaled_x(a, b) * mpv_scaled_x(b, a)
            + mpv_scaled_y(a, b) * mpv_scaled_y(b, a) <= 0,
{
    let ux = sel_axis_x(a, b);
    let uy = sel_axis_y(a, b);
    let vx = sel_axis_x(b, a);
    let vy = sel_axis_y(b, a);
    let dx = disp_x(a, b);
    let dy = disp_y(a, b);
    assert(disp_dot(a, b, ux, uy) == dx * ux + dy * uy);
    assert(disp_dot(a, b, vx, vy) == dx * vx + dy * vy);
    assert(disp_x(b, a) == -dx && disp_y(b, a) == -dy);
    assert(disp_dot(b, a, vx, vy) == (-dx) * vx + (-dy) * vy);
    assert((-dx) * vx + (-dy) * vy == -(dx * vx + dy * vy)) by (nonlinear_arith);
    let r1x = mpv_x(a, b);
    let r1y = mpv_y(a, b);
    let r2x = mpv_x(b, a);
    let r2y = mpv_y(b, a);
    assert(r1x == if dx * ux + dy * uy > 0 { -ux } else { ux });
    assert(r1y == if dx * ux + dy * uy > 0 { -uy } else { uy });
    assert(r2x == if dx * vx + dy * vy < 0 { -vx } else { vx });
    assert(r2y == if dx * vx + dy * vy < 0 { -vy } else { vy });
    // The chosen orientations point against and along the displacement.
    assert(dx * r1x + dy * r1y < 0) by (nonlinear_arith)
        requires
            dx * ux + dy * uy != 0,
            r1x == (if dx * ux + dy * uy > 0 { -ux } else { ux }),
            r1y == (if dx * ux + dy * uy > 0 { -uy } else { uy }),
    ;
    assert(dx * r2x + dy * r2y > 0) by (nonlinear_arith)
        requires
            dx * vx + dy * vy != 0,
            r2x == (if dx * vx + dy * vy < 0 { -vx } else { vx }),
            r2y == (if dx * vx + dy * vy < 0 { -vy } else { vy }),
    ;
    // The two directions stay parallel after orientation.
    assert(r1x * r2y - r1y * r2x == 0) by (nonlinear_arith)
        requires
            ux * vy - uy * vx == 0,
            r1x == (if dx * ux + dy * uy > 0 { -ux } else { ux }),
            r1y == (if dx * ux + dy * uy > 0 { -uy } else { uy }),
            r2x == (if dx * vx + dy * vy < 0 { -vx } else { vx }),
            r2y == (if dx * vx + dy * vy < 0 { -vy } else { vy }),
    ;
    assert(!(r1x == 0 && r1y == 0));
    // For parallel directions, projecting the displacement factors through:
    // (d . r1)(r2 . r1) == (d . r2)(r1 . r1).
    lemma_parallel_dot_swap(dx, dy, r1x, r1y, r2x, r2y);
    lemma_parallel_transfer(
        dx * r1x + dy * r1y, dx * r2x + dy * r2y, r1x, r1y, r2x, r2y,
    );
    assert((dx * r1x + dy * r1y) * (r2x * r1x + r2y * r1y)
        == (dx * r2x + dy * r2y) * (r1x * r1x + r1y * r1y));
    assert(r1x * r1x + r1y * r1y > 0) by (nonlinear_arith)
        requires !(r1x == 0 && r1y == 0);
    assert(r1x * r2x + r1y * r2y < 0) by (nonlinear_arith)
        requires
            (dx * r1x + dy * r1y) * (r2x * r1x + r2y * r1y)
                == (dx * r2x + dy * r2y) * (r1x * r1x + r1y * r1y),
            dx * r1x + dy * r1y < 0,
            dx * r2x + dy * r2y > 0,
            r1x * r1x + r1y * r1y > 0,
    ;
    // Parallel directions with a negative dot are opposed coordinate by
    // coordinate: the product of the two componentwise products is a
    // square, so neither can be positive.
    assert((r1x * r2x) * (r1y * r2y) == (r1y * r2x) * (r1y * r2x)) by (nonlinear_arith)
        requires r1x * r2y - r1y * r2x == 0;
    assert(r1x * r2x <= 0 && r1y * r2y <= 0) by (nonlinear_arith)
        requires
            (r1x * r2x) * (r1y * r2y) == (r1y * r2x) * (r1y * r2x),
            r1x * r2x + r1y * r2y < 0,
    ;
    // The overlap depths of both selections are nonnegative and the
    // squared axis lengths positive, so truncated scaling keeps each
    // component's sign.
    let kab = best_axis(a, b, n_axes(a, b) - 1);
    let kba = best_axis(b, a, n_axes(b, a) - 1);
    lemma_best_axis_range(a, b, n_axes(a, b) - 1);
    lemma_best_axis_range(b, a, n_axes(b, a) - 1);
    assert(axis_overlaps(a, b, kab)) by {
        if !axis_overlaps(a, b, kab) {
            assert(separated(a, b));
        }
    }
    assert(axis_overlaps(b, a, kba)) by {
        if !axis_overlaps(b, a, kba) {
            assert(separated(b, a));
        }
    }
    let d1 = sel_depth(a, b);
    let d2 = sel_depth(b, a);
    let q1 = sel_len2(a, b);
    let q2 = sel_len2(b, a);
    assert(d1 >= 0 && d2 >= 0);
    assert(q1 >= 1) by (nonlinear_arith)
        requires
            q1 == ux * ux + uy * uy,
            !(ux == 0 && uy == 0),
    ;
    assert(q2 >= 1) by (nonlinear_arith)
        requires
            q2 == vx * vx + vy * vy,
            !(vx == 0 && vy == 0),
    ;
    let s1x = mpv_scaled_x(a, b);
    let s1y = mpv_scaled_y(a, b);
    let s2x = mpv_scaled_x(b, a);
    let s2y = mpv_scaled_y(b, a);
    assert(s1x == crate::geometry::trunc_div(r1x * d1, q1));
    assert(s1y == crate::geometry::trunc_div(r1y * d1, q1));
    assert(s2x == crate::geometry::trunc_div(r2x * d2, q2));
    assert(s2y == crate::geometry::trunc_div(r2y * d2, q2));
    lemma_trunc_scale_sign(r1x, d1, q1);
    lemma_trunc_scale_sign(r1y, d1, q1);
    lemma_trunc_scale_sign(r2x, d2, q2);
    lemma_trunc_scale_sign(r2y, d2, q2);
    assert(s1x * s2x <= 0) by (nonlinear_arith)
        requires
            r1x * r2x <= 0,
            r1x >= 0 ==> s1x >= 0,
            r1x <= 0 ==> s1x <= 0,
            r2x >= 0 ==> s2x >= 0,
            r2x <= 0 ==> s2x <= 0,
    ;
    assert(s1y * s2y <= 0) by (nonlinear_arith)
        requires
            r1y * r2y <= 0,
            r1y >= 0 ==> s1y >= 0,
            r1y <= 0 ==> s1y <= 0,
            r2y >= 0 ==> s2y >= 0,
            r2y <= 0 ==> s2y <= 0,
    ;
}

} // verus!
