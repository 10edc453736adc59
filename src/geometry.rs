use vstd::prelude::*;
use crate::vertex::Vertex;

verus! {

/// Twice the signed area of the triangle `o a b`: positive when `o a b` turns
/// counter-clockwise, negative when it turns clockwise, zero when collinear.
pub open spec fn cross(o: Vertex, a: Vertex, b: Vertex) -> int {
    (a.x - o.x) * (b.y - o.y) - (a.y - o.y) * (b.x - o.x)
}

/// Dot product of `a - o` and `b - o`.
pub open spec fn dot(o: Vertex, a: Vertex, b: Vertex) -> int {
    (a.x - o.x) * (b.x - o.x) + (a.y - o.y) * (b.y - o.y)
}

/// Strict containment of `p` in triangle `a b c`.
///
/// With `u = b - a`, `w = c - a` and `p - a = s * u + t * w`, the point is
/// strictly inside iff `s > 0`, `t > 0` and `s + t < 1`.  By Cramer's rule
/// `s = cross(a, p, c) / d` and `t = cross(a, b, p) / d` with
/// `d = cross(a, b, c)`; the conditions below are those inequalities
/// multiplied through by `d`.  Only meaningful when `d != 0`.
pub open spec fn inside_triangle(a: Vertex, b: Vertex, c: Vertex, p: Vertex) -> bool {
    let d = cross(a, b, c);
    let s = cross(a, p, c);
    let t = cross(a, b, p);
    if d > 0 {
        s > 0 && t > 0 && s + t < d
    } else {
        s < 0 && t < 0 && s + t > d
    }
}

/// Whether `p` lies in the axis-aligned box spanned by `a` and `b`.
pub open spec fn in_box(a: Vertex, b: Vertex, p: Vertex) -> bool {
    (a.x <= p.x <= b.x || b.x <= p.x <= a.x) && (a.y <= p.y <= b.y || b.y <= p.y <= a.y)
}

/// Whether the closed segments `p1 p2` and `p3 p4` have a point in common.
#[verifier::opaque]
pub open spec fn segments_meet(p1: Vertex, p2: Vertex, p3: Vertex, p4: Vertex) -> bool {
    let d1 = cross(p3, p4, p1);
    let d2 = cross(p3, p4, p2);
    let d3 = cross(p1, p2, p3);
    let d4 = cross(p1, p2, p4);
    ||| ((d1 > 0 && d2 < 0) || (d1 < 0 && d2 > 0)) && ((d3 > 0 && d4 < 0) || (d3 < 0 && d4 > 0))
    ||| d1 == 0 && in_box(p3, p4, p1)
    ||| d2 == 0 && in_box(p3, p4, p2)
    ||| d3 == 0 && in_box(p1, p2, p3)
    ||| d4 == 0 && in_box(p1, p2, p4)
}

/// Whether the path `a b c` turns straight back at `b`, so that the segments
/// `a b` and `b c` overlap along more than their common end.
pub open spec fn folds_back(a: Vertex, b: Vertex, c: Vertex) -> bool {
    cross(b, a, c) == 0 && dot(b, a, c) > 0
}

/// Error of a geometric predicate.
#[derive(Clone, Copy, Debug, PartialEq, Eq, Structural)]
pub enum GeomError {
    /// The triangle has zero area: its vertices are collinear.
    DegenerateTriangle,
}

pub(crate) proof fn lemma_mul_bound(a: int, b: int, ma: int, mb: int)
    requires
        0 <= ma,
        0 <= mb,
        -ma <= a <= ma,
        -mb <= b <= mb,
    ensures
        -(ma * mb) <= a * b <= ma * mb,
{
    assert(-(ma * mb) <= a * b <= ma * mb) by (nonlinear_arith)
        requires
            0 <= ma,
            0 <= mb,
            -ma <= a <= ma,
            -mb <= b <= mb,
    ;
}

/// `cross(o, a, b)`, computed exactly.
pub fn orient(o: Vertex, a: Vertex, b: Vertex) -> (r: i128)
    ensures
        r == cross(o, a, b),
        -0x4_0000_0000_0000_0000 <= r <= 0x4_0000_0000_0000_0000,
{
    let ax = a.x as i128 - o.x as i128;
    let ay = a.y as i128 - o.y as i128;
    let bx = b.x as i128 - o.x as i128;
    let by = b.y as i128 - o.y as i128;
    proof {
        let m: int = 0x1_0000_0000;
        lemma_mul_bound(ax as int, by as int, m, m);
        lemma_mul_bound(ay as int, bx as int, m, m);
    }
    ax * by - ay * bx
}

/// `dot(o, a, b)`, computed exactly.
pub fn dot_product(o: Vertex, a: Vertex, b: Vertex) -> (r: i128)
    ensures
        r == dot(o, a, b),
{
    let ax = a.x as i128 - o.x as i128;
    let ay = a.y as i128 - o.y as i128;
    let bx = b.x as i128 - o.x as i128;
    let by = b.y as i128 - o.y as i128;
    proof {
        let m: int = 0x1_0000_0000;
        lemma_mul_bound(ax as int, bx as int, m, m);
        lemma_mul_bound(ay as int, by as int, m, m);
    }
    ax * bx + ay * by
}

/// Strict containment of `p` in the triangle `a b c`, by solving for its
/// affine coordinates in the basis of the edges leaving `a`.
///
/// A triangle of zero area has no such basis and is reported as degenerate.
pub fn point_in_triangle(a: Vertex, b: Vertex, c: Vertex, p: Vertex) -> (r: Result<bool, GeomError>)
    ensures
        cross(a, b, c) == 0 <==> r == Err::<bool, GeomError>(GeomError::DegenerateTriangle),
        cross(a, b, c) != 0 ==> r == Ok::<bool, GeomError>(inside_triangle(a, b, c, p)),
{
    let d = orient(a, b, c);
    if d == 0 {
        return Err(GeomError::DegenerateTriangle);
    }
    let s = orient(a, p, c);
    let t = orient(a, b, p);
    if d > 0 {
        Ok(s > 0 && t > 0 && s + t < d)
    } else {
        Ok(s < 0 && t < 0 && s + t > d)
    }
}

fn in_box_exec(a: Vertex, b: Vertex, p: Vertex) -> (r: bool)
    ensures
        r == in_box(a, b, p),
{
    (a.x <= p.x && p.x <= b.x || b.x <= p.x && p.x <= a.x) && (a.y <= p.y && p.y <= b.y || b.y
        <= p.y && p.y <= a.y)
}

/// Whether the closed segments `p1 p2` and `p3 p4` have a point in common.
pub fn segments_intersect(p1: Vertex, p2: Vertex, p3: Vertex, p4: Vertex) -> (r: bool)
    ensures
        r == segments_meet(p1, p2, p3, p4),
{
    reveal(segments_meet);
    let d1 = orient(p3, p4, p1);
    let d2 = orient(p3, p4, p2);
    let d3 = orient(p1, p2, p3);
    let d4 = orient(p1, p2, p4);
    if ((d1 > 0 && d2 < 0) || (d1 < 0 && d2 > 0)) && ((d3 > 0 && d4 < 0) || (d3 < 0 && d4 > 0)) {
        return true;
    }
    (d1 == 0 && in_box_exec(p3, p4, p1)) || (d2 == 0 && in_box_exec(p3, p4, p2)) || (d3 == 0
        && in_box_exec(p1, p2, p3)) || (d4 == 0 && in_box_exec(p1, p2, p4))
}

/// Whether the path `a b c` turns straight back at `b`.
pub fn turns_back(a: Vertex, b: Vertex, c: Vertex) -> (r: bool)
    ensures
        r == folds_back(a, b, c),
{
    orient(b, a, c) == 0 && dot_product(b, a, c) > 0
}

} // verus!
