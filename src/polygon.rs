use vstd::prelude::*;
use crate::vertex::Vertex;
use crate::geometry::{folds_back, lemma_mul_bound, segments_intersect, segments_meet, turns_back};

verus! {

/// Index of the vertex after `i` on a closed loop of `n` vertices.
pub open spec fn next_index(n: int, i: int) -> int {
    if i + 1 == n {
        0
    } else {
        i + 1
    }
}

/// Index of the vertex before `i` on a closed loop of `n` vertices.
pub open spec fn prev_index(n: int, i: int) -> int {
    if i == 0 {
        n - 1
    } else {
        i - 1
    }
}

/// Whether edge `i` of the loop (from vertex `i` to the next one) is crossed by
/// the horizontal ray that leaves the query point `(qx / d, qy / d)` towards
/// larger `x`.
///
/// The edge `c0 c1` counts when it is not horizontal and the query's `y`
/// lies in `[min(c0.y, c1.y), max(c0.y, c1.y))`.  The edge's `x` at that
/// height exceeds the query's `x` by `num / (d * dy)`, with `dy = c1.y - c0.y`,
/// so it lies to the right iff `num` has the sign of `dy`.
pub open spec fn edge_crosses(c0: Vertex, c1: Vertex, qx: int, qy: int, d: int) -> bool {
    let dy = c1.y - c0.y;
    let dx = c1.x - c0.x;
    let lo = if c0.y < c1.y { c0.y } else { c1.y };
    let hi = if c0.y < c1.y { c1.y } else { c0.y };
    let num = (d * c0.x - qx) * dy + (qy - d * c0.y) * dx;
    &&& dy != 0
    &&& lo * d <= qy < hi * d
    &&& if dy > 0 { num > 0 } else { num < 0 }
}

/// Number of the first `k` edges of the loop `b` that the ray from
/// `(qx / d, qy / d)` crosses.
pub open spec fn crossings(b: Seq<Vertex>, qx: int, qy: int, d: int, k: int) -> nat
    decreases k,
{
    if k <= 0 {
        0
    } else {
        let i = k - 1;
        crossings(b, qx, qy, d, k - 1) + if edge_crosses(
            b[i],
            b[next_index(b.len() as int, i)],
            qx,
            qy,
            d,
        ) {
            1nat
        } else {
            0nat
        }
    }
}

/// Even-odd rule: the point `(qx / d, qy / d)` is inside the closed loop `b`
/// iff the ray to its right crosses an odd number of the loop's edges.
pub open spec fn inside_polygon(b: Seq<Vertex>, qx: int, qy: int, d: int) -> bool {
    crossings(b, qx, qy, d, b.len() as int) % 2 == 1
}

/// Largest denominator of a query point.
pub const MAX_DENOM: i64 = 0x1_0000_0000;

/// Bound on the numerators of a query point with denominator `d`.
pub open spec fn query_fits(qx: int, qy: int, d: int) -> bool {
    &&& 0 < d <= MAX_DENOM
    &&& -0x8000_0000_0000_0000 <= qx < 0x8000_0000_0000_0000
    &&& -0x8000_0000_0000_0000 <= qy < 0x8000_0000_0000_0000
}

fn edge_crosses_exec(c0: Vertex, c1: Vertex, qx: i64, qy: i64, d: i64) -> (r: bool)
    requires
        query_fits(qx as int, qy as int, d as int),
    ensures
        r == edge_crosses(c0, c1, qx as int, qy as int, d as int),
{
    if c0.y == c1.y {
        return false;
    }
    let (lo, hi) = if c0.y < c1.y {
        (c0.y, c1.y)
    } else {
        (c1.y, c0.y)
    };
    let dd = d as i128;
    let lo_w = lo as i128;
    let hi_w = hi as i128;
    let x0 = c0.x as i128;
    let y0 = c0.y as i128;
    proof {
        lemma_mul_bound(lo_w as int, dd as int, 0x1_0000_0000, 0x1_0000_0000);
        lemma_mul_bound(hi_w as int, dd as int, 0x1_0000_0000, 0x1_0000_0000);
        lemma_mul_bound(dd as int, y0 as int, 0x1_0000_0000, 0x1_0000_0000);
        lemma_mul_bound(dd as int, x0 as int, 0x1_0000_0000, 0x1_0000_0000);
    }
    if !(lo_w * dd <= qy as i128 && (qy as i128) < hi_w * dd) {
        return false;
    }
    let dy = c1.y as i128 - y0;
    let dx = c1.x as i128 - x0;
    let ex = dd * x0 - qx as i128;
    let ey = qy as i128 - dd * y0;
    proof {
        let big: int = 0x4_0000_0000_0000_0000;
        let small: int = 0x1_0000_0000;
        lemma_mul_bound(ex as int, dy as int, big, small);
        lemma_mul_bound(ey as int, dx as int, big, small);
    }
    let num = ex * dy + ey * dx;
    if dy > 0 {
        num > 0
    } else {
        num < 0
    }
}

/// Even-odd classification of the point `(qx / d, qy / d)` against the
/// closed loop `border`, the edge from the last vertex to the first included.
pub fn is_inside_frac(border: &Vec<Vertex>, qx: i64, qy: i64, d: i64) -> (r: bool)
    requires
        query_fits(qx as int, qy as int, d as int),
    ensures
        r == inside_polygon(border@, qx as int, qy as int, d as int),
{
    let n = border.len();
    let mut odd = false;
    let mut i: usize = 0;
    while i < n
        invariant
            query_fits(qx as int, qy as int, d as int),
            n == border.len(),
            i <= n,
            odd == (crossings(border@, qx as int, qy as int, d as int, i as int) % 2 == 1),
        decreases n - i,
    {
        let j = if i + 1 == n {
            0
        } else {
            i + 1
        };
        if edge_crosses_exec(border[i], border[j], qx, qy, d) {
            odd = !odd;
        }
        i = i + 1;
    }
    odd
}

/// Even-odd classification of the vertex `p` against the closed loop `border`.
pub fn is_inside(border: &Vec<Vertex>, p: &Vertex) -> (r: bool)
    ensures
        r == inside_polygon(border@, p.x as int, p.y as int, 1),
{
    is_inside_frac(border, p.x as i64, p.y as i64, 1)
}

/// Why a border polygon is refused.
#[derive(Clone, Copy, Debug, PartialEq, Eq, Structural)]
pub enum MeshError {
    /// The border has fewer than three vertices.
    TooFewVertices,
    /// Two consecutive vertices of the border (the last and the first
    /// included) are equal.
    RepeatedVertex,
    /// Two edges of the border meet other than at the vertex they share.
    SelfIntersecting,
}

/// No two consecutive vertices of the loop are equal.
pub open spec fn no_repeat(b: Seq<Vertex>) -> bool {
    forall|i: int| 0 <= i < b.len() ==> b[i] != #[trigger] b[next_index(b.len() as int, i)]
}

/// No two consecutive edges of the loop overlap along a stretch.
pub open spec fn no_fold(b: Seq<Vertex>) -> bool {
    forall|i: int|
        0 <= i < b.len() ==> !folds_back(
            b[prev_index(b.len() as int, i)],
            #[trigger] b[i],
            b[next_index(b.len() as int, i)],
        )
}

/// Whether edges `i` and `j` of a loop of `n` vertices share a vertex.
pub open spec fn edges_adjacent(n: int, i: int, j: int) -> bool {
    j == next_index(n, i) || i == next_index(n, j)
}

/// Edges `i` and `j` of the loop `b` have a point in common.
pub open spec fn edges_meet(b: Seq<Vertex>, i: int, j: int) -> bool {
    let n = b.len() as int;
    segments_meet(b[i], b[next_index(n, i)], b[j], b[next_index(n, j)])
}

/// No two edges of the loop that share no vertex have a point in common.
pub open spec fn no_crossing(b: Seq<Vertex>) -> bool {
    forall|i: int, j: int|
        0 <= i < j < b.len() && !edges_adjacent(b.len() as int, i, j) ==> !#[trigger] edges_meet(
            b,
            i,
            j,
        )
}

/// A border polygon: at least three vertices, a simple closed loop.
#[verifier::opaque]
pub open spec fn valid_border(b: Seq<Vertex>) -> bool {
    &&& b.len() >= 3
    &&& no_repeat(b)
    &&& no_fold(b)
    &&& no_crossing(b)
}

/// Whether two edges of the loop that share no vertex have a point in common.
fn has_crossing(border: &Vec<Vertex>) -> (r: bool)
    requires
        border.len() >= 3,
    ensures
        r == !no_crossing(border@),
{
    let n = border.len();
    let mut i: usize = 0;
    while i < n
        invariant
            n == border.len(),
            n >= 3,
            i <= n,
            forall|a: int, c: int|
                0 <= a < i && a < c < n && !edges_adjacent(n as int, a, c) ==> !#[trigger] edges_meet(
                    border@,
                    a,
                    c,
                ),
        decreases n - i,
    {
        let i2 = if i + 1 == n {
            0
        } else {
            i + 1
        };
        let mut j: usize = i + 1;
        while j < n
            invariant
                n == border.len(),
                n >= 3,
                i < n,
                i < j <= n,
                i2 == next_index(n as int, i as int),
                forall|a: int, c: int|
                    0 <= a < i && a < c < n && !edges_adjacent(n as int, a, c) ==> !#[trigger] edges_meet(
                        border@,
                        a,
                        c,
                    ),
                forall|c: int|
                    i < c < j && !edges_adjacent(n as int, i as int, c) ==> !#[trigger] edges_meet(
                        border@,
                        i as int,
                        c,
                    ),
            decreases n - j,
        {
            let j2 = if j + 1 == n {
                0
            } else {
                j + 1
            };
            if j != i2 && i != j2 {
                if segments_intersect(border[i], border[i2], border[j], border[j2]) {
                    assert(edges_meet(border@, i as int, j as int));
                    return true;
                }
            }
            j = j + 1;
        }
        assert forall|a: int, c: int|
            0 <= a < i + 1 && a < c < n && !edges_adjacent(n as int, a, c) implies !#[trigger] edges_meet(
            border@,
            a,
            c,
        ) by {
            if a == i {
            }
        }
        i = i + 1;
    }
    false
}

/// The verdict on a border: the first of the three faults that it has, in
/// the order too few vertices, repeated vertex, self-intersection.
pub open spec fn border_verdict(b: Seq<Vertex>) -> Result<(), MeshError> {
    if b.len() < 3 {
        Err(MeshError::TooFewVertices)
    } else if !no_repeat(b) {
        Err(MeshError::RepeatedVertex)
    } else if !(no_fold(b) && no_crossing(b)) {
        Err(MeshError::SelfIntersecting)
    } else {
        Ok(())
    }
}

/// A border passes the checks exactly when it is a valid border polygon.
pub proof fn lemma_verdict_ok_iff_valid(b: Seq<Vertex>)
    ensures
        border_verdict(b) is Ok <==> valid_border(b),
{
    reveal(valid_border);
}

/// Checks that `border` is a simple closed loop of at least three vertices.
pub fn check_border(border: &Vec<Vertex>) -> (r: Result<(), MeshError>)
    ensures
        r == border_verdict(border@),
        r == Err::<(), MeshError>(MeshError::TooFewVertices) <==> border@.len() < 3,
        r == Err::<(), MeshError>(MeshError::RepeatedVertex) <==> border@.len() >= 3 && !no_repeat(
            border@,
        ),
        r == Err::<(), MeshError>(MeshError::SelfIntersecting) <==> border@.len() >= 3
            && no_repeat(border@) && !(no_fold(border@) && no_crossing(border@)),
{
    let n = border.len();
    if n < 3 {
        return Err(MeshError::TooFewVertices);
    }
    let mut i: usize = 0;
    while i < n
        invariant
            n == border.len(),
            n >= 3,
            i <= n,
            forall|k: int| 0 <= k < i ==> border@[k] != #[trigger] border@[next_index(n as int, k)],
        decreases n - i,
    {
        let j = if i + 1 == n {
            0
        } else {
            i + 1
        };
        if border[i] == border[j] {
            return Err(MeshError::RepeatedVertex);
        }
        i = i + 1;
    }
    let mut i: usize = 0;
    while i < n
        invariant
            n == border.len(),
            n >= 3,
            i <= n,
            no_repeat(border@),
            forall|k: int|
                0 <= k < i ==> !folds_back(
                    border@[prev_index(n as int, k)],
                    #[trigger] border@[k],
                    border@[next_index(n as int, k)],
                ),
        decreases n - i,
    {
        let p = if i == 0 {
            n - 1
        } else {
            i - 1
        };
        let q = if i + 1 == n {
            0
        } else {
            i + 1
        };
        if turns_back(border[p], border[i], border[q]) {
            return Err(MeshError::SelfIntersecting);
        }
        i = i + 1;
    }
    if has_crossing(border) {
        return Err(MeshError::SelfIntersecting);
    }
    Ok(())
}

} // verus!
