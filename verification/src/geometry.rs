//! Point-in-shape hit testing on an integer canvas.
//!
//! The canvas is a logical grid of whole units. A rectangle test is
//! inclusive of its edges; the triangle test uses exact barycentric signs and
//! is strict, so points exactly on an edge belong to no triangle.

use vstd::prelude::*;

verus! {

/// Coordinates are kept small enough that every product of two coordinate
/// differences fits comfortably in an `i64`.
pub const COORD_LIMIT: i64 = 1_000_000;

#[derive(Copy, Clone)]
pub struct Point {
    pub x: i64,
    pub y: i64,
}

#[derive(Copy, Clone)]
pub struct Rect {
    pub x: i64,
    pub y: i64,
    pub w: i64,
    pub h: i64,
}

impl Point {
    pub open spec fn bounded(self) -> bool {
        -COORD_LIMIT <= self.x <= COORD_LIMIT && -COORD_LIMIT <= self.y <= COORD_LIMIT
    }
}

impl Rect {
    pub open spec fn bounded(self) -> bool {
        -COORD_LIMIT <= self.x <= COORD_LIMIT && -COORD_LIMIT <= self.y <= COORD_LIMIT
            && 0 <= self.w <= COORD_LIMIT && 0 <= self.h <= COORD_LIMIT
    }
}

/// A point lies in a rectangle when it is within the closed bounds.
pub open spec fn in_rect(p: Point, r: Rect) -> bool {
    r.x <= p.x && p.x <= r.x + r.w && r.y <= p.y && p.y <= r.y + r.h
}

/// Inclusive-edge rectangle collision test.
pub fn check_collision_point_rect(point: Point, rect: Rect) -> (hit: bool)
    requires
        point.bounded(),
        rect.bounded(),
    ensures
        hit == in_rect(point, rect),
{
    rect.x <= point.x && point.x <= rect.x + rect.w && rect.y <= point.y
        && point.y <= rect.y + rect.h
}

/// The rectangle test accepts all four corners and rejects any point one
/// unit outside an edge.
pub proof fn lemma_rect_edges_inclusive(r: Rect)
    requires
        r.bounded(),
    ensures
        in_rect(Point { x: r.x, y: r.y }, r),
        in_rect(Point { x: (r.x + r.w) as i64, y: r.y }, r),
        in_rect(Point { x: r.x, y: (r.y + r.h) as i64 }, r),
        in_rect(Point { x: (r.x + r.w) as i64, y: (r.y + r.h) as i64 }, r),
        forall|p: Point| p.x == r.x - 1 ==> !in_rect(p, r),
        forall|p: Point| p.x == r.x + r.w + 1 ==> !in_rect(p, r),
        forall|p: Point| p.y == r.y - 1 ==> !in_rect(p, r),
        forall|p: Point| p.y == r.y + r.h + 1 ==> !in_rect(p, r),
{
}

/// Twice the signed area of the triangle `a b c`.
pub open spec fn tri_det(a: Point, b: Point, c: Point) -> int {
    (b.y - c.y) * (a.x - c.x) + (c.x - b.x) * (a.y - c.y)
}

/// Barycentric numerator for the weight of vertex `a` at point `p`.
pub open spec fn bary_a_num(p: Point, a: Point, b: Point, c: Point) -> int {
    (b.y - c.y) * (p.x - c.x) + (c.x - b.x) * (p.y - c.y)
}

/// Barycentric numerator for the weight of vertex `b` at point `p`.
pub open spec fn bary_b_num(p: Point, a: Point, b: Point, c: Point) -> int {
    (c.y - a.y) * (p.x - c.x) + (a.x - c.x) * (p.y - c.y)
}

/// Barycentric numerator for the weight of vertex `c` at point `p`.
pub open spec fn bary_c_num(p: Point, a: Point, b: Point, c: Point) -> int {
    tri_det(a, b, c) - bary_a_num(p, a, b, c) - bary_b_num(p, a, b, c)
}

/// A point lies strictly inside the triangle when all three barycentric
/// weights are strictly positive, that is when every numerator has the same
/// strict sign as the determinant. Points on an edge are excluded.
pub open spec fn in_tri(p: Point, a: Point, b: Point, c: Point) -> bool {
    if tri_det(a, b, c) > 0 {
        bary_a_num(p, a, b, c) > 0 && bary_b_num(p, a, b, c) > 0 && bary_c_num(p, a, b, c) > 0
    } else {
        bary_a_num(p, a, b, c) < 0 && bary_b_num(p, a, b, c) < 0 && bary_c_num(p, a, b, c) < 0
    }
}

proof fn lemma_mul_bound(x: int, y: int, m: int, n: int)
    requires
        -m <= x <= m,
        -n <= y <= n,
        0 <= m,
        0 <= n,
    ensures
        -(m * n) <= x * y <= m * n,
{
    assert(-(m * n) <= x * y <= m * n) by (nonlinear_arith)
        requires
            -m <= x <= m,
            -n <= y <= n,
            0 <= m,
            0 <= n,
    ;
}

/// Strict barycentric triangle collision test, exact over the integer grid.
/// Degenerate (zero-area) triangles are not a supported input.
pub fn check_collision_point_tri(p: Point, a: Point, b: Point, c: Point) -> (hit: bool)
    requires
        p.bounded(),
        a.bounded(),
        b.bounded(),
        c.bounded(),
        tri_det(a, b, c) != 0,
    ensures
        hit == in_tri(p, a, b, c),
{
    let dy_bc: i64 = b.y - c.y;
    let dx_cb: i64 = c.x - b.x;
    let dy_ca: i64 = c.y - a.y;
    let dx_ac: i64 = a.x - c.x;
    let px: i64 = p.x - c.x;
    let py: i64 = p.y - c.y;
    let ax: i64 = a.x - c.x;
    let ay: i64 = a.y - c.y;
    proof {
        let lim = 2 * COORD_LIMIT as int;
        lemma_mul_bound(dy_bc as int, ax as int, lim, lim);
        lemma_mul_bound(dx_cb as int, ay as int, lim, lim);
        lemma_mul_bound(dy_bc as int, px as int, lim, lim);
        lemma_mul_bound(dx_cb as int, py as int, lim, lim);
        lemma_mul_bound(dy_ca as int, px as int, lim, lim);
        lemma_mul_bound(dx_ac as int, py as int, lim, lim);
    }
    let det: i64 = dy_bc * ax + dx_cb * ay;
    let na: i64 = dy_bc * px + dx_cb * py;
    let nb: i64 = dy_ca * px + dx_ac * py;
    let nc: i64 = det - na - nb;
    if det > 0 {
        na > 0 && nb > 0 && nc > 0
    } else {
        na < 0 && nb < 0 && nc < 0
    }
}

/// Center of the canvas, the common vertex of the four quadrant triangles.
pub open spec fn quad_center(w: i64, h: i64) -> Point {
    Point { x: (w / 2) as i64, y: (h / 2) as i64 }
}

/// Membership of `p` in quadrant `q` of a `w` by `h` canvas: quadrant 0 is
/// the top triangle, 1 the right, 2 the bottom, 3 the left, all meeting at
/// the canvas center.
pub open spec fn quadrant_hit(q: int, p: Point, w: i64, h: i64) -> bool {
    let c = quad_center(w, h);
    let tl = Point { x: 0i64, y: 0i64 };
    let tr = Point { x: w, y: 0i64 };
    let br = Point { x: w, y: h };
    let bl = Point { x: 0i64, y: h };
    if q == 0 {
        in_tri(p, c, tr, tl)
    } else if q == 1 {
        in_tri(p, c, br, tr)
    } else if q == 2 {
        in_tri(p, c, bl, br)
    } else if q == 3 {
        in_tri(p, c, tl, bl)
    } else {
        false
    }
}

/// The quadrant that holds `p`, top first, as the hover scan reports it.
pub open spec fn spec_quadrant_at(p: Point, w: i64, h: i64) -> Option<u8> {
    if quadrant_hit(0, p, w, h) {
        Some(0u8)
    } else if quadrant_hit(1, p, w, h) {
        Some(1u8)
    } else if quadrant_hit(2, p, w, h) {
        Some(2u8)
    } else if quadrant_hit(3, p, w, h) {
        Some(3u8)
    } else {
        None
    }
}

/// Sign of `p` against the ray from the canvas center to the top-left
/// corner: the cross product of that ray with the vector from the center
/// to `p`. Zero exactly on the line through center and corner; on an
/// even-sized canvas that line is the main diagonal.
pub open spec fn side_tl(p: Point, w: i64, h: i64) -> int {
    (h / 2) * p.x - (w / 2) * p.y
}

/// Sign of `p` against the ray from the canvas center to the top-right
/// corner; on an even-sized canvas its line is the anti diagonal.
pub open spec fn side_tr(p: Point, w: i64, h: i64) -> int {
    (w - w / 2) * (p.y - h / 2) + (h / 2) * (p.x - w / 2)
}

/// Sign of `p` against the ray from the canvas center to the bottom-right
/// corner.
pub open spec fn side_br(p: Point, w: i64, h: i64) -> int {
    (w - w / 2) * (p.y - h / 2) - (h - h / 2) * (p.x - w / 2)
}

/// Sign of `p` against the ray from the canvas center to the bottom-left
/// corner.
pub open spec fn side_bl(p: Point, w: i64, h: i64) -> int {
    -(w / 2) * (p.y - h / 2) - (h - h / 2) * (p.x - w / 2)
}

/// Which quadrant triangle, if any, the pointer occupies.
pub fn quadrant_at(p: Point, width: i64, height: i64) -> (q: Option<u8>)
    requires
        p.bounded(),
        2 <= width <= COORD_LIMIT,
        2 <= height <= COORD_LIMIT,
    ensures
        q == spec_quadrant_at(p, width, height),
        q matches Some(i) ==> i < 4,
{
    let cx: i64 = width / 2;
    let cy: i64 = height / 2;
    let center = Point { x: cx, y: cy };
    let tl = Point { x: 0, y: 0 };
    let tr = Point { x: width, y: 0 };
    let br = Point { x: width, y: height };
    let bl = Point { x: 0, y: height };
    proof {
        let wi = width as int;
        let hi = height as int;
        let cxi = wi / 2;
        let cyi = hi / 2;
        assert(1 <= cxi && 1 <= cyi);
        assert((0 - 0) * (cxi - 0) + (0 - wi) * (cyi - 0) == -(wi * cyi)) by (nonlinear_arith);
        assert((hi - 0) * (cxi - wi) + (wi - wi) * (cyi - 0) == hi * (cxi - wi))
            by (nonlinear_arith);
        assert((hi - hi) * (cxi - wi) + (wi - 0) * (cyi - hi) == wi * (cyi - hi))
            by (nonlinear_arith);
        assert((0 - hi) * (cxi - 0) + (0 - 0) * (cyi - hi) == -(hi * cxi)) by (nonlinear_arith);
        assert(wi * cyi > 0) by (nonlinear_arith)
            requires
                wi >= 2,
                cyi >= 1,
        ;
        assert(hi * (cxi - wi) < 0) by (nonlinear_arith)
            requires
                hi >= 2,
                cxi - wi <= -1,
        ;
        assert(wi * (cyi - hi) < 0) by (nonlinear_arith)
            requires
                wi >= 2,
                cyi - hi <= -1,
        ;
        assert(hi * cxi > 0) by (nonlinear_arith)
            requires
                hi >= 2,
                cxi >= 1,
        ;
        assert(tri_det(center, tr, tl) != 0);
        assert(tri_det(center, br, tr) != 0);
        assert(tri_det(center, bl, br) != 0);
        assert(tri_det(center, tl, bl) != 0);
    }
    if check_collision_point_tri(p, center, tr, tl) {
        Some(0)
    } else if check_collision_point_tri(p, center, br, tr) {
        Some(1)
    } else if check_collision_point_tri(p, center, bl, br) {
        Some(2)
    } else if check_collision_point_tri(p, center, tl, bl) {
        Some(3)
    } else {
        None
    }
}

/// Membership in each quadrant triangle is, for an interior point, exactly
/// a pair of strict sign tests against the rays from the center to two
/// adjacent corners: the top triangle lies counterclockwise of the
/// top-left ray and clockwise of the top-right ray, and so on around.
pub proof fn lemma_quadrant_signs(p: Point, w: i64, h: i64)
    requires
        2 <= w <= COORD_LIMIT,
        2 <= h <= COORD_LIMIT,
        0 < p.x < w,
        0 < p.y < h,
    ensures
        quadrant_hit(0, p, w, h) <==> (side_tl(p, w, h) > 0 && side_tr(p, w, h) < 0),
        quadrant_hit(1, p, w, h) <==> (side_tr(p, w, h) > 0 && side_br(p, w, h) < 0),
        quadrant_hit(2, p, w, h) <==> (side_br(p, w, h) > 0 && side_bl(p, w, h) < 0),
        quadrant_hit(3, p, w, h) <==> (side_bl(p, w, h) > 0 && side_tl(p, w, h) < 0),
{
    let wi = w as int;
    let hi = h as int;
    let cxi = wi / 2;
    let cyi = hi / 2;
    let pxi = p.x as int;
    let pyi = p.y as int;
    assert(1 <= cxi <= wi - 1);
    assert(1 <= cyi <= hi - 1);
    let c = quad_center(w, h);
    let tl = Point { x: 0i64, y: 0i64 };
    let tr = Point { x: w, y: 0i64 };
    let br = Point { x: w, y: h };
    let bl = Point { x: 0i64, y: h };
    assert(c.x as int == cxi && c.y as int == cyi);
    let s_tl = side_tl(p, w, h);
    let s_tr = side_tr(p, w, h);
    let s_br = side_br(p, w, h);
    let s_bl = side_bl(p, w, h);
    assert(s_tl == cyi * pxi - cxi * pyi);
    assert(s_tr == (wi - cxi) * (pyi - cyi) + cyi * (pxi - cxi));
    assert(s_br == (wi - cxi) * (pyi - cyi) - (hi - cyi) * (pxi - cxi));
    assert(s_bl == -(cxi) * (pyi - cyi) - (hi - cyi) * (pxi - cxi));
    // Quadrant 0, the top triangle (center, top-right, top-left).
    assert(tri_det(c, tr, tl) == (0 - 0) * (cxi - 0) + (0 - wi) * (cyi - 0));
    assert((0 - 0) * (cxi - 0) + (0 - wi) * (cyi - 0) == -(wi * cyi)) by (nonlinear_arith);
    assert(wi * cyi > 0) by (nonlinear_arith)
        requires
            wi >= 2,
            cyi >= 1,
    ;
    assert(bary_a_num(p, c, tr, tl) == (0 - 0) * (pxi - 0) + (0 - wi) * (pyi - 0));
    assert((0 - 0) * (pxi - 0) + (0 - wi) * (pyi - 0) == -(wi * pyi)) by (nonlinear_arith);
    assert(wi * pyi > 0 <==> pyi > 0) by (nonlinear_arith)
        requires
            wi >= 2,
    ;
    assert(bary_b_num(p, c, tr, tl) == (0 - cyi) * (pxi - 0) + (cxi - 0) * (pyi - 0));
    assert((0 - cyi) * (pxi - 0) + (cxi - 0) * (pyi - 0) == -(cyi * pxi - cxi * pyi))
        by (nonlinear_arith);
    assert(bary_c_num(p, c, tr, tl) == -(wi * cyi) + (wi * pyi) + (cyi * pxi - cxi * pyi));
    assert(-(wi * cyi) + (wi * pyi) + (cyi * pxi - cxi * pyi) == (wi - cxi) * (pyi - cyi) + cyi * (
    pxi - cxi)) by (nonlinear_arith);
    assert(quadrant_hit(0, p, w, h) <==> (s_tl > 0 && s_tr < 0));
    // Quadrant 1, the right triangle (center, bottom-right, top-right).
    assert(tri_det(c, br, tr) == (hi - 0) * (cxi - wi) + (wi - wi) * (cyi - 0));
    assert((hi - 0) * (cxi - wi) + (wi - wi) * (cyi - 0) == -(hi * (wi - cxi)))
        by (nonlinear_arith);
    assert(hi * (wi - cxi) > 0) by (nonlinear_arith)
        requires
            hi >= 2,
            wi - cxi >= 1,
    ;
    assert(bary_a_num(p, c, br, tr) == (hi - 0) * (pxi - wi) + (wi - wi) * (pyi - 0));
    assert((hi - 0) * (pxi - wi) + (wi - wi) * (pyi - 0) == hi * (pxi - wi)) by (nonlinear_arith);
    assert(hi * (pxi - wi) < 0 <==> pxi < wi) by (nonlinear_arith)
        requires
            hi >= 2,
    ;
    assert(bary_b_num(p, c, br, tr) == (0 - cyi) * (pxi - wi) + (cxi - wi) * (pyi - 0));
    assert((0 - cyi) * (pxi - wi) + (cxi - wi) * (pyi - 0) == -((wi - cxi) * (pyi - cyi) + cyi * (
    pxi - cxi))) by (nonlinear_arith);
    assert(bary_c_num(p, c, br, tr) == -(hi * (wi - cxi)) - hi * (pxi - wi) + ((wi - cxi) * (pyi
        - cyi) + cyi * (pxi - cxi)));
    assert(-(hi * (wi - cxi)) - hi * (pxi - wi) + ((wi - cxi) * (pyi - cyi) + cyi * (pxi - cxi))
        == (wi - cxi) * (pyi - cyi) - (hi - cyi) * (pxi - cxi)) by (nonlinear_arith);
    assert(quadrant_hit(1, p, w, h) <==> (s_tr > 0 && s_br < 0));
    // Quadrant 2, the bottom triangle (center, bottom-left, bottom-right).
    assert(tri_det(c, bl, br) == (hi - hi) * (cxi - wi) + (wi - 0) * (cyi - hi));
    assert((hi - hi) * (cxi - wi) + (wi - 0) * (cyi - hi) == -(wi * (hi - cyi)))
        by (nonlinear_arith);
    assert(wi * (hi - cyi) > 0) by (nonlinear_arith)
        requires
            wi >= 2,
            hi - cyi >= 1,
    ;
    assert(bary_a_num(p, c, bl, br) == (hi - hi) * (pxi - wi) + (wi - 0) * (pyi - hi));
    assert((hi - hi) * (pxi - wi) + (wi - 0) * (pyi - hi) == wi * (pyi - hi)) by (nonlinear_arith);
    assert(wi * (pyi - hi) < 0 <==> pyi < hi) by (nonlinear_arith)
        requires
            wi >= 2,
    ;
    assert(bary_b_num(p, c, bl, br) == (hi - cyi) * (pxi - wi) + (cxi - wi) * (pyi - hi));
    assert((hi - cyi) * (pxi - wi) + (cxi - wi) * (pyi - hi) == -((wi - cxi) * (pyi - cyi) - (hi
        - cyi) * (pxi - cxi))) by (nonlinear_arith);
    assert(bary_c_num(p, c, bl, br) == -(wi * (hi - cyi)) - wi * (pyi - hi) + ((wi - cxi) * (pyi
        - cyi) - (hi - cyi) * (pxi - cxi)));
    assert(-(wi * (hi - cyi)) - wi * (pyi - hi) + ((wi - cxi) * (pyi - cyi) - (hi - cyi) * (pxi
        - cxi)) == -(cxi) * (pyi - cyi) - (hi - cyi) * (pxi - cxi)) by (nonlinear_arith);
    assert(quadrant_hit(2, p, w, h) <==> (s_br > 0 && s_bl < 0));
    // Quadrant 3, the left triangle (center, top-left, bottom-left).
    assert(tri_det(c, tl, bl) == (0 - hi) * (cxi - 0) + (0 - 0) * (cyi - hi));
    assert((0 - hi) * (cxi - 0) + (0 - 0) * (cyi - hi) == -(hi * cxi)) by (nonlinear_arith);
    assert(hi * cxi > 0) by (nonlinear_arith)
        requires
            hi >= 2,
            cxi >= 1,
    ;
    assert(bary_a_num(p, c, tl, bl) == (0 - hi) * (pxi - 0) + (0 - 0) * (pyi - hi));
    assert((0 - hi) * (pxi - 0) + (0 - 0) * (pyi - hi) == -(hi * pxi)) by (nonlinear_arith);
    assert(hi * pxi > 0 <==> pxi > 0) by (nonlinear_arith)
        requires
            hi >= 2,
    ;
    assert(bary_b_num(p, c, tl, bl) == (hi - cyi) * (pxi - 0) + (cxi - 0) * (pyi - hi));
    assert((hi - cyi) * (pxi - 0) + (cxi - 0) * (pyi - hi) == -(-(cxi) * (pyi - cyi) - (hi - cyi)
        * (pxi - cxi))) by (nonlinear_arith);
    assert(bary_c_num(p, c, tl, bl) == -(hi * cxi) + hi * pxi + (-(cxi) * (pyi - cyi) - (hi - cyi)
        * (pxi - cxi)));
    assert(-(hi * cxi) + hi * pxi + (-(cxi) * (pyi - cyi) - (hi - cyi) * (pxi - cxi)) == cyi * pxi
        - cxi * pyi) by (nonlinear_arith);
    assert(quadrant_hit(3, p, w, h) <==> (s_bl > 0 && s_tl < 0));
}

/// The four corner rays surround the center: no point lies strictly on
/// one side of both rays of the top-left and bottom-right pair while also
/// lying strictly on one side of both rays of the other pair.
proof fn lemma_ray_sides_conflict(p: Point, w: i64, h: i64)
    requires
        2 <= w <= COORD_LIMIT,
        2 <= h <= COORD_LIMIT,
    ensures
        ((side_tl(p, w, h) > 0 && side_br(p, w, h) > 0) || (side_tl(p, w, h) < 0 && side_br(
            p,
            w,
            h,
        ) < 0)) ==> !((side_tr(p, w, h) > 0 && side_bl(p, w, h) > 0) || (side_tr(p, w, h) < 0
            && side_bl(p, w, h) < 0)),
{
    let wi = w as int;
    let hi = h as int;
    let cxi = wi / 2;
    let cyi = hi / 2;
    let pxi = p.x as int;
    let pyi = p.y as int;
    assert(1 <= cxi <= wi - 1);
    assert(1 <= cyi <= hi - 1);
    let s_tl = side_tl(p, w, h);
    let s_tr = side_tr(p, w, h);
    let s_br = side_br(p, w, h);
    let s_bl = side_bl(p, w, h);
    assert(s_tl == cyi * pxi - cxi * pyi);
    assert(s_tr == (wi - cxi) * (pyi - cyi) + cyi * (pxi - cxi));
    assert(s_br == (wi - cxi) * (pyi - cyi) - (hi - cyi) * (pxi - cxi));
    assert(s_bl == -(cxi) * (pyi - cyi) - (hi - cyi) * (pxi - cxi));
    // In coordinates centered on the canvas center the four side values
    // are small bilinear forms.
    let rx = wi - cxi;
    let ry = hi - cyi;
    let t = pyi - cyi;
    let u = pxi - cxi;
    let dd = cyi * rx - cxi * ry;
    let ee = cxi * cyi - rx * ry;
    assert(cyi * pxi - cxi * pyi == cyi * u - cxi * t) by (nonlinear_arith)
        requires
            t == pyi - cyi,
            u == pxi - cxi,
    ;
    assert(s_tl == cyi * u - cxi * t);
    assert(s_tr == rx * t + cyi * u);
    assert(s_br == rx * t - ry * u);
    assert(s_bl == -(cxi) * t - ry * u);
    // Two weighted sums of opposite ray signs collapse onto the line
    // through the other pair's corners.
    assert(ry * (cyi * u - cxi * t) + cyi * (rx * t - ry * u) == (cyi * rx - cxi * ry) * t)
        by (nonlinear_arith);
    assert(rx * (cyi * u - cxi * t) + cxi * (rx * t - ry * u) == (cyi * rx - cxi * ry) * u)
        by (nonlinear_arith);
    assert(ry * (rx * t + cyi * u) + cyi * (-(cxi) * t - ry * u) == -((cxi * cyi - rx * ry) * t))
        by (nonlinear_arith);
    assert(cxi * (rx * t + cyi * u) + rx * (-(cxi) * t - ry * u) == (cxi * cyi - rx * ry) * u)
        by (nonlinear_arith);
    assert(ry * s_tl + cyi * s_br == dd * t);
    assert(rx * s_tl + cxi * s_br == dd * u);
    assert(ry * s_tr + cyi * s_bl == -(ee * t));
    assert(cxi * s_tr + rx * s_bl == ee * u);
    if (s_tl > 0 && s_br > 0) || (s_tl < 0 && s_br < 0) {
        if (s_tr > 0 && s_bl > 0) || (s_tr < 0 && s_bl < 0) {
            if s_tl > 0 {
                assert(dd * t > 0 && dd * u > 0) by (nonlinear_arith)
                    requires
                        hi - cyi >= 1,
                        cyi >= 1,
                        wi - cxi >= 1,
                        cxi >= 1,
                        s_tl > 0,
                        s_br > 0,
                        (hi - cyi) * s_tl + cyi * s_br == dd * t,
                        (wi - cxi) * s_tl + cxi * s_br == dd * u,
                ;
            } else {
                assert(dd * t < 0 && dd * u < 0) by (nonlinear_arith)
                    requires
                        hi - cyi >= 1,
                        cyi >= 1,
                        wi - cxi >= 1,
                        cxi >= 1,
                        s_tl < 0,
                        s_br < 0,
                        (hi - cyi) * s_tl + cyi * s_br == dd * t,
                        (wi - cxi) * s_tl + cxi * s_br == dd * u,
                ;
            }
            if s_tr > 0 {
                assert(ee * t < 0 && ee * u > 0) by (nonlinear_arith)
                    requires
                        hi - cyi >= 1,
                        cyi >= 1,
                        wi - cxi >= 1,
                        cxi >= 1,
                        s_tr > 0,
                        s_bl > 0,
                        (hi - cyi) * s_tr + cyi * s_bl == -(ee * t),
                        cxi * s_tr + (wi - cxi) * s_bl == ee * u,
                ;
            } else {
                assert(ee * t > 0 && ee * u < 0) by (nonlinear_arith)
                    requires
                        hi - cyi >= 1,
                        cyi >= 1,
                        wi - cxi >= 1,
                        cxi >= 1,
                        s_tr < 0,
                        s_bl < 0,
                        (hi - cyi) * s_tr + cyi * s_bl == -(ee * t),
                        cxi * s_tr + (wi - cxi) * s_bl == ee * u,
                ;
            }
            assert(false) by (nonlinear_arith)
                requires
                    (dd * t > 0 && dd * u > 0) || (dd * t < 0 && dd * u < 0),
                    (ee * t < 0 && ee * u > 0) || (ee * t > 0 && ee * u < 0),
            ;
        }
    }
}

/// No interior point lies in two quadrant triangles at once.
pub proof fn lemma_quadrants_exclusive(p: Point, w: i64, h: i64)
    requires
        2 <= w <= COORD_LIMIT,
        2 <= h <= COORD_LIMIT,
        0 < p.x < w,
        0 < p.y < h,
    ensures
        forall|q1: int, q2: int|
            0 <= q1 < 4 && 0 <= q2 < 4 && quadrant_hit(q1, p, w, h) && quadrant_hit(q2, p, w, h)
                ==> q1 == q2,
{
    lemma_quadrant_signs(p, w, h);
    // Adjacent quadrants share a ray with opposite strict signs; opposite
    // quadrants would put `p` strictly on one side of both rays of each
    // pair at once.
    lemma_ray_sides_conflict(p, w, h);
}

/// Every interior point that is not exactly on one of the four rays from
/// the center to a corner lies in one of the four quadrant triangles.
/// With `lemma_quadrants_exclusive` this makes the quadrants a partition
/// of the canvas interior minus those boundary rays; on an even-sized
/// canvas the rays are exactly the two diagonals.
pub proof fn lemma_quadrants_exhaustive(p: Point, w: i64, h: i64)
    requires
        2 <= w <= COORD_LIMIT,
        2 <= h <= COORD_LIMIT,
        0 < p.x < w,
        0 < p.y < h,
        side_tl(p, w, h) != 0,
        side_tr(p, w, h) != 0,
        side_br(p, w, h) != 0,
        side_bl(p, w, h) != 0,
    ensures
        exists|q: int| 0 <= q < 4 && quadrant_hit(q, p, w, h),
        spec_quadrant_at(p, w, h) is Some,
{
    lemma_quadrant_signs(p, w, h);
    let s_tl = side_tl(p, w, h);
    let s_tr = side_tr(p, w, h);
    let s_br = side_br(p, w, h);
    let s_bl = side_bl(p, w, h);
    if s_tl > 0 && s_tr < 0 {
        assert(quadrant_hit(0, p, w, h));
    } else if s_tr > 0 && s_br < 0 {
        assert(quadrant_hit(1, p, w, h));
    } else if s_br > 0 && s_bl < 0 {
        assert(quadrant_hit(2, p, w, h));
    } else if s_bl > 0 && s_tl < 0 {
        assert(quadrant_hit(3, p, w, h));
    } else {
        // All four signs must then be equal, which no point achieves.
        assert((s_tl > 0 && s_br > 0) || (s_tl < 0 && s_br < 0));
        assert((s_tr > 0 && s_bl > 0) || (s_tr < 0 && s_bl < 0));
        lemma_ray_sides_conflict(p, w, h);
    }
}

} // verus!
