use vstd::prelude::*;
use crate::vertex::Vertex;
use crate::polygon::{inside_polygon, is_inside_frac};
use crate::geometry::{cross, inside_triangle, point_in_triangle, GeomError};

verus! {

broadcast use vstd::seq_lib::group_filter_ensures;

/// A triangle given by three indices into a vertex sequence.
#[derive(Clone, Copy, Debug, PartialEq, Eq, Structural)]
pub struct Tri(pub usize, pub usize, pub usize);

/// Corner `k` (0, 1 or 2) of `t`.
pub open spec fn corner(t: Tri, k: int) -> usize {
    if k == 0 {
        t.0
    } else if k == 1 {
        t.1
    } else {
        t.2
    }
}

/// Whether `{a, b}` and `{c, d}` are the same unordered pair.
pub open spec fn same_pair(a: usize, b: usize, c: usize, d: usize) -> bool {
    (a == c && b == d) || (a == d && b == c)
}

/// Whether edge `k` of `t` (from corner `k` to the next corner) joins `a` and `b`.
pub open spec fn edge_is(t: Tri, k: int, a: usize, b: usize) -> bool {
    same_pair(corner(t, k), corner(t, (k + 1) % 3), a, b)
}

/// Whether one of the three edges of `t` joins `a` and `b`.
pub open spec fn has_edge(t: Tri, a: usize, b: usize) -> bool {
    edge_is(t, 0, a, b) || edge_is(t, 1, a, b) || edge_is(t, 2, a, b)
}

/// Whether every index of `t` is below `n`.
pub open spec fn tri_in_range(t: Tri, n: nat) -> bool {
    t.0 < n && t.1 < n && t.2 < n
}

impl Tri {
    /// A triangle over `verts`, from three indices into it.
    pub fn new(verts: &Vec<Vertex>, indices: [usize; 3]) -> (r: Tri)
        requires
            forall|k: int| 0 <= k < 3 ==> indices@[k] < verts.len(),
        ensures
            r == Tri(indices@[0], indices@[1], indices@[2]),
    {
        Tri(indices[0], indices[1], indices[2])
    }

    /// Whether one of the edges of this triangle joins `a` and `b`.
    pub fn shares_edge(&self, a: usize, b: usize) -> (r: bool)
        ensures
            r == has_edge(*self, a, b),
    {
        (self.0 == a && self.1 == b) || (self.0 == b && self.1 == a) || (self.1 == a && self.2
            == b) || (self.1 == b && self.2 == a) || (self.2 == a && self.0 == b) || (self.2 == b
            && self.0 == a)
    }
}

/// A centroid, held exactly as three times its coordinates: the centroid is
/// `(sum_x / 3, sum_y / 3)`.
#[derive(Clone, Copy, Debug, PartialEq, Eq, Structural)]
pub struct Centroid {
    pub sum_x: i64,
    pub sum_y: i64,
}

/// The centroid of `t` over the vertex sequence `v`.
pub open spec fn centroid_of(v: Seq<Vertex>, t: Tri) -> Centroid {
    Centroid {
        sum_x: (v[t.0 as int].x + v[t.1 as int].x + v[t.2 as int].x) as i64,
        sum_y: (v[t.0 as int].y + v[t.1 as int].y + v[t.2 as int].y) as i64,
    }
}

/// Whether the centroid of `t` is inside the border loop `b`.
pub open spec fn centroid_inside(b: Seq<Vertex>, t: Tri) -> bool {
    inside_polygon(
        b,
        b[t.0 as int].x + b[t.1 as int].x + b[t.2 as int].x,
        b[t.0 as int].y + b[t.1 as int].y + b[t.2 as int].y,
        3,
    )
}

/// The candidates of `area` whose centroid is inside `b`, in their order.
pub open spec fn kept_of(b: Seq<Vertex>, area: Seq<Tri>) -> Seq<Tri> {
    area.filter(|t: Tri| centroid_inside(b, t))
}

/// The centroid of `t` over `verts`.
pub fn centroid(verts: &Vec<Vertex>, t: Tri) -> (r: Centroid)
    requires
        tri_in_range(t, verts.len() as nat),
    ensures
        r == centroid_of(verts@, t),
{
    let a = verts[t.0];
    let b = verts[t.1];
    let c = verts[t.2];
    Centroid {
        sum_x: a.x as i64 + b.x as i64 + c.x as i64,
        sum_y: a.y as i64 + b.y as i64 + c.y as i64,
    }
}

/// Whether the centroid of `t` is inside the border loop.
pub fn centroid_is_inside(border: &Vec<Vertex>, t: Tri) -> (r: bool)
    requires
        tri_in_range(t, border.len() as nat),
    ensures
        r == centroid_inside(border@, t),
{
    let c = centroid(border, t);
    is_inside_frac(border, c.sum_x, c.sum_y, 3)
}

/// The candidates whose centroid lies inside the border, in their order.
pub fn keep_inside(border: &Vec<Vertex>, area: &Vec<Tri>) -> (r: Vec<Tri>)
    requires
        forall|i: int| 0 <= i < area.len() ==> tri_in_range(#[trigger] area@[i], border.len() as nat),
    ensures
        r@ == kept_of(border@, area@),
{
    let mut out: Vec<Tri> = Vec::new();
    let mut i: usize = 0;
    while i < area.len()
        invariant
            i <= area.len(),
            forall|k: int| 0 <= k < area.len() ==> tri_in_range(#[trigger] area@[k], border.len() as nat),
            out@ == kept_of(border@, area@.subrange(0, i as int)),
        decreases area.len() - i,
    {
        let t = area[i];
        let keep = centroid_is_inside(border, t);
        proof {
            let s = area@.subrange(0, i as int + 1);
            assert(s.drop_last() =~= area@.subrange(0, i as int));
            assert(s.last() == t);
            assert(s.len() > 0);
        }
        if keep {
            out.push(t);
        }
        proof {
            let s = area@.subrange(0, i as int + 1);
            let pred = |u: Tri| centroid_inside(border@, u);
            reveal(Seq::filter);
            assert(s.filter(pred) == if pred(s.last()) {
                s.drop_last().filter(pred).push(s.last())
            } else {
                s.drop_last().filter(pred)
            });
        }
        i = i + 1;
    }
    assert(area@.subrange(0, area.len() as int) =~= area@);
    out
}

/// Whether cell `j` is the one cell other than `i` of `tris` with an edge
/// joining `a` and `b`.
#[verifier::opaque]
pub open spec fn sole_partner(tris: Seq<Tri>, i: int, a: usize, b: usize, j: int) -> bool {
    &&& 0 <= j < tris.len()
    &&& j != i
    &&& has_edge(tris[j], a, b)
    &&& forall|m: int|
        0 <= m < tris.len() && m != i && #[trigger] has_edge(tris[m], a, b) ==> m == j
}

/// What cell `i` records across its edge joining `a` and `b`: the other cell
/// with that edge where there is exactly one, else nothing.
pub open spec fn neighbor_ok(tris: Seq<Tri>, i: int, a: usize, b: usize, nb: Option<usize>) -> bool {
    match nb {
        Some(j) => sole_partner(tris, i, a, b, j as int),
        None => forall|j: int| !#[trigger] sole_partner(tris, i, a, b, j),
    }
}

/// At most one cell is the sole partner of a cell across a given edge.
pub proof fn lemma_partner_unique(tris: Seq<Tri>, i: int, a: usize, b: usize, j1: int, j2: int)
    requires
        sole_partner(tris, i, a, b, j1),
        sole_partner(tris, i, a, b, j2),
    ensures
        j1 == j2,
{
    reveal(sole_partner);
    assert(has_edge(tris[j2], a, b));
}

/// A cell of the mesh.
#[derive(Clone, Copy, Debug)]
pub struct MeshCell {
    /// The triangle, by indices into the domain's vertices.
    pub tri: Tri,
    /// Per edge `k` (from corner `k` to the next corner), the index of the cell
    /// across it, if any.
    pub neighbors: [Option<usize>; 3],
    /// Whether some edge has no neighbor.
    pub is_boundary: bool,
    /// The centroid of the triangle.
    pub center: Centroid,
    /// Simulation state, not computed by the mesh.
    pub value: i64,
}

impl MeshCell {
    /// Strict containment of `p` in the triangle of this cell over `verts`.
    pub fn vert_in(&self, p: &Vertex, verts: &Vec<Vertex>) -> (r: Result<bool, GeomError>)
        requires
            tri_in_range(self.tri, verts.len() as nat),
        ensures
            ({
                let a = verts@[self.tri.0 as int];
                let b = verts@[self.tri.1 as int];
                let c = verts@[self.tri.2 as int];
                &&& cross(a, b, c) == 0 <==> r == Err::<bool, GeomError>(
                    GeomError::DegenerateTriangle,
                )
                &&& cross(a, b, c) != 0 ==> r == Ok::<bool, GeomError>(
                    inside_triangle(a, b, c, *p),
                )
            }),
    {
        point_in_triangle(verts[self.tri.0], verts[self.tri.1], verts[self.tri.2], *p)
    }
}

/// Number of edges of `c` with a neighbor.
pub open spec fn neighbor_count(c: MeshCell) -> nat {
    (if c.neighbors@[0] is Some { 1nat } else { 0nat }) + (if c.neighbors@[1] is Some {
        1nat
    } else {
        0nat
    }) + (if c.neighbors@[2] is Some { 1nat } else { 0nat })
}

/// Cell `c` is the cell built for triangle `i` of `tris` over the vertices `v`.
pub open spec fn cell_ok(tris: Seq<Tri>, v: Seq<Vertex>, i: int, c: MeshCell) -> bool {
    let t = tris[i];
    &&& c.tri == t
    &&& forall|k: int|
        0 <= k < 3 ==> neighbor_ok(
            tris,
            i,
            corner(t, k),
            corner(t, (k + 1) % 3),
            #[trigger] c.neighbors@[k],
        )
    &&& c.is_boundary == (c.neighbors@[0] is None || c.neighbors@[1] is None
        || c.neighbors@[2] is None)
    &&& c.center == centroid_of(v, t)
    &&& c.value == 0
}

/// The cell other than `i` with an edge joining `a` and `b`, where exactly
/// one such cell exists.
pub fn find_partner(tris: &Vec<Tri>, i: usize, a: usize, b: usize) -> (r: Option<usize>)
    ensures
        neighbor_ok(tris@, i as int, a, b, r),
{
    reveal(sole_partner);
    let mut first: Option<usize> = None;
    let mut j: usize = 0;
    while j < tris.len()
        invariant
            j <= tris.len(),
            match first {
                None => forall|m: int|
                    0 <= m < j && m != i ==> !#[trigger] has_edge(tris@[m], a, b),
                Some(f) => f < j && f != i && has_edge(tris@[f as int], a, b) && forall|m: int|
                    0 <= m < j && m != i && #[trigger] has_edge(tris@[m], a, b) ==> m == f,
            },
        decreases tris.len() - j,
    {
        if j != i && tris[j].shares_edge(a, b) {
            match first {
                None => {
                    first = Some(j);
                },
                Some(f) => {
                    assert forall|m: int| !#[trigger] sole_partner(tris@, i as int, a, b, m) by {
                        reveal(sole_partner);
                        if sole_partner(tris@, i as int, a, b, m) {
                            assert(has_edge(tris@[f as int], a, b));
                            assert(has_edge(tris@[j as int], a, b));
                            assert(f as int == m);
                            assert(j as int == m);
                        }
                    }
                    return None;
                },
            }
        }
        j = j + 1;
    }
    if first.is_none() {
        assert forall|m: int| !#[trigger] sole_partner(tris@, i as int, a, b, m) by {
            reveal(sole_partner);
            if sole_partner(tris@, i as int, a, b, m) {
                assert(has_edge(tris@[m], a, b));
            }
        }
    }
    first
}

/// The cells over `tris`: neighbors across shared edges, boundary flags and
/// centroids.
pub fn build_cells(verts: &Vec<Vertex>, tris: &Vec<Tri>) -> (r: Vec<MeshCell>)
    requires
        forall|i: int| 0 <= i < tris.len() ==> tri_in_range(#[trigger] tris@[i], verts.len() as nat),
    ensures
        r.len() == tris.len(),
        forall|i: int| 0 <= i < tris.len() ==> cell_ok(tris@, verts@, i, #[trigger] r@[i]),
{
    let mut cells: Vec<MeshCell> = Vec::new();
    let mut i: usize = 0;
    while i < tris.len()
        invariant
            i <= tris.len(),
            cells.len() == i,
            forall|k: int| 0 <= k < tris.len() ==> tri_in_range(#[trigger] tris@[k], verts.len() as nat),
            forall|k: int| 0 <= k < i ==> cell_ok(tris@, verts@, k, #[trigger] cells@[k]),
        decreases tris.len() - i,
    {
        let t = tris[i];
        let n0 = find_partner(tris, i, t.0, t.1);
        let n1 = find_partner(tris, i, t.1, t.2);
        let n2 = find_partner(tris, i, t.2, t.0);
        let neighbors = [n0, n1, n2];
        let cell = MeshCell {
            tri: t,
            neighbors,
            is_boundary: n0.is_none() || n1.is_none() || n2.is_none(),
            center: centroid(verts, t),
            value: 0,
        };
        proof {
            assert(neighbors@[0] == n0);
            assert(neighbors@[1] == n1);
            assert(neighbors@[2] == n2);
            assert forall|k: int|
                0 <= k < 3 implies neighbor_ok(
                tris@,
                i as int,
                corner(t, k),
                corner(t, (k + 1) % 3),
                #[trigger] cell.neighbors@[k],
            ) by {
                if k == 0 {
                } else if k == 1 {
                } else {
                }
            }
        }
        cells.push(cell);
        i = i + 1;
    }
    cells
}

} // verus!
