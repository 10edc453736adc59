use vstd::prelude::*;
use crate::vertex::Vertex;
use crate::polygon::{border_verdict, check_border, lemma_verdict_ok_iff_valid, valid_border, MeshError};
use crate::mesh::{
    build_cells, cell_ok, centroid_inside, corner, edge_is, has_edge, keep_inside, kept_of,
    neighbor_count, neighbor_ok, same_pair, sole_partner, lemma_partner_unique, tri_in_range, MeshCell, Tri,
};

verus! {

broadcast use vstd::seq_lib::group_filter_ensures;

/// The flat index list of the Delaunay triangulation of `v`.
pub uninterp spec fn delaunay_of(v: Seq<Vertex>) -> Seq<usize>;

/// Relies on delaunator::triangulate: its `triangles` field lists point
/// indices, each consecutive triple one triangle.
#[verifier::external_body]
fn delaunay_triangles(verts: &Vec<Vertex>) -> (r: Vec<usize>)
    ensures
        r@ == delaunay_of(verts@),
        r@.len() % 3 == 0,
        forall|k: int| 0 <= k < r@.len() ==> #[trigger] r@[k] < verts@.len(),
{
    let points: Vec<delaunator::Point> = verts.iter().map(
        |v| delaunator::Point { x: v.x.into(), y: v.y.into() },
    ).collect();
    delaunator::triangulate(&points).triangles
}

/// Consecutive triples of `s`; a last incomplete group is dropped.
pub open spec fn triples_of(s: Seq<usize>) -> Seq<(usize, usize, usize)> {
    Seq::new(s.len() / 3, |i: int| (s[3 * i], s[3 * i + 1], s[3 * i + 2]))
}

/// Relies on itertools::Itertools::tuples: it yields the consecutive triples
/// of the input and drops an incomplete rest.
#[verifier::external_body]
fn group_triples(v: Vec<usize>) -> (r: Vec<(usize, usize, usize)>)
    ensures
        r@ == triples_of(v@),
{
    itertools::Itertools::tuples::<(usize, usize, usize)>(v.into_iter()).collect()
}

/// The candidate triangles of the border `b`: its Delaunay triangulation,
/// covering the convex hull.
pub open spec fn candidates_of(b: Seq<Vertex>) -> Seq<Tri> {
    let s = delaunay_of(b);
    Seq::new(s.len() / 3, |i: int| Tri(s[3 * i], s[3 * i + 1], s[3 * i + 2]))
}

/// The candidate triangles of `border`.
pub fn gen_area(border: &Vec<Vertex>) -> (r: Vec<Tri>)
    ensures
        r@ == candidates_of(border@),
        forall|i: int| 0 <= i < r.len() ==> tri_in_range(#[trigger] r@[i], border.len() as nat),
{
    let flat = delaunay_triangles(border);
    let ghost s = flat@;
    let triples = group_triples(flat);
    let mut area: Vec<Tri> = Vec::new();
    let mut k: usize = 0;
    while k < triples.len()
        invariant
            k <= triples.len(),
            s == delaunay_of(border@),
            s.len() % 3 == 0,
            forall|m: int| 0 <= m < s.len() ==> #[trigger] s[m] < border@.len(),
            triples@ == triples_of(s),
            area@ =~= candidates_of(border@).subrange(0, k as int),
        decreases triples.len() - k,
    {
        let (c0, c1, c2) = triples[k];
        assert(c0 == s[3 * k as int] && c1 == s[3 * k as int + 1] && c2 == s[3 * k as int + 2]);
        let indices = [c0, c1, c2];
        assert(indices@[0] == c0 && indices@[1] == c1 && indices@[2] == c2);
        let t = Tri::new(border, indices);
        area.push(t);
        k = k + 1;
    }
    area
}

/// A border polygon and the triangular mesh of its interior.
#[derive(Debug)]
pub struct Domain {
    verts: Vec<Vertex>,
    border: Vec<Vertex>,
    cells: Vec<MeshCell>,
    area: Vec<Tri>,
}

impl Domain {
    /// The border loop.
    pub closed spec fn border_view(&self) -> Seq<Vertex> {
        self.border@
    }

    /// The vertices the triangles index into.
    pub closed spec fn verts_view(&self) -> Seq<Vertex> {
        self.verts@
    }

    /// Every candidate triangle, before filtering.
    pub closed spec fn area_view(&self) -> Seq<Tri> {
        self.area@
    }

    /// The cells of the mesh.
    pub closed spec fn cells_view(&self) -> Seq<MeshCell> {
        self.cells@
    }

    /// The surviving triangles: the candidates whose centroid is inside.
    pub open spec fn kept(&self) -> Seq<Tri> {
        kept_of(self.border_view(), self.area_view())
    }

    /// The domain is the mesh of its border: the candidates are the border's
    /// triangulation, and cell `i` is built from surviving triangle `i`.
    pub open spec fn wf(&self) -> bool {
        &&& valid_border(self.border_view())
        &&& self.verts_view() == self.border_view()
        &&& self.area_view() == candidates_of(self.border_view())
        &&& self.cells_view().len() == self.kept().len()
        &&& forall|i: int|
            0 <= i < self.cells_view().len() ==> cell_ok(
                self.kept(),
                self.verts_view(),
                i,
                #[trigger] self.cells_view()[i],
            )
    }

    /// The mesh of the border polygon `border`.
    ///
    /// A border that is not a simple loop of at least three vertices is
    /// refused before any triangulation.
    pub fn new_from_border(border: Vec<Vertex>) -> (r: Result<Domain, MeshError>)
        ensures
            match r {
                Ok(d) => border_verdict(border@) is Ok && d.wf() && d.border_view() == border@,
                Err(e) => border_verdict(border@) == Err::<(), MeshError>(e),
            },
    {
        match check_border(&border) {
            Err(e) => {
                return Err(e);
            },
            Ok(()) => {},
        }
        proof {
            lemma_verdict_ok_iff_valid(border@);
        }
        let area = gen_area(&border);
        let kept = keep_inside(&border, &area);
        proof {
            assert forall|i: int| 0 <= i < kept.len() implies tri_in_range(
                #[trigger] kept@[i],
                border.len() as nat,
            ) by {
                let t = kept@[i];
                let pred = |u: Tri| centroid_inside(border@, u);
                assert(kept@ == area@.filter(pred));
                assert(area@.filter(pred).contains(t));
                area@.lemma_filter_contains_rev(pred, t);
                let j = choose|j: int| 0 <= j < area@.len() && area@[j] == t;
                assert(tri_in_range(area@[j], border.len() as nat));
            }
        }
        let cells = build_cells(&border, &kept);
        let verts = border.clone();
        Ok(Domain { verts, border, cells, area })
    }

    /// The mesh of the axis-aligned rectangle with opposite corners `lower`
    /// and `upper`.
    pub fn new_from_rect(lower: Vertex, upper: Vertex) -> (r: Result<Domain, MeshError>)
        ensures
            match r {
                Ok(d) => border_verdict(rect_border(lower, upper)) is Ok && d.wf()
                    && d.border_view() == rect_border(lower, upper),
                Err(e) => border_verdict(rect_border(lower, upper)) == Err::<(), MeshError>(e),
            },
    {
        let mut border: Vec<Vertex> = Vec::new();
        border.push(lower);
        border.push(Vertex { x: lower.x, y: upper.y });
        border.push(upper);
        border.push(Vertex { x: upper.x, y: lower.y });
        assert(border@ =~= rect_border(lower, upper));
        Domain::new_from_border(border)
    }

    /// The border loop.
    pub fn border(&self) -> (r: &Vec<Vertex>)
        ensures
            r@ == self.border_view(),
    {
        &self.border
    }

    /// The vertices the triangles index into.
    pub fn verts(&self) -> (r: &Vec<Vertex>)
        ensures
            r@ == self.verts_view(),
    {
        &self.verts
    }

    /// Every candidate triangle, before filtering.
    pub fn area(&self) -> (r: &Vec<Tri>)
        ensures
            r@ == self.area_view(),
    {
        &self.area
    }

    /// The cells of the mesh.
    pub fn cells(&self) -> (r: &Vec<MeshCell>)
        ensures
            r@ == self.cells_view(),
    {
        &self.cells
    }

    /// Whether no candidate survived: the mesh has no cell.
    pub fn is_empty(&self) -> (r: bool)
        ensures
            r == (self.cells_view().len() == 0),
    {
        self.cells.len() == 0
    }
}

/// Every cell of a domain has its centroid classified inside the border by
/// the even-odd classifier.
pub proof fn lemma_cells_inside(d: &Domain)
    requires
        d.wf(),
    ensures
        forall|i: int|
            0 <= i < d.cells_view().len() ==> centroid_inside(
                d.border_view(),
                #[trigger] d.cells_view()[i].tri,
            ),
{
    assert forall|i: int| 0 <= i < d.cells_view().len() implies centroid_inside(
        d.border_view(),
        #[trigger] d.cells_view()[i].tri,
    ) by {
        assert(cell_ok(d.kept(), d.verts_view(), i, d.cells_view()[i]));
        let pred = |u: Tri| centroid_inside(d.border_view(), u);
        assert(pred(d.area_view().filter(pred)[i]));
    }
}

/// Building the mesh is deterministic: two domains over the same border
/// have the same candidates and the same cells.
pub proof fn lemma_construction_deterministic(d1: &Domain, d2: &Domain)
    requires
        d1.wf(),
        d2.wf(),
        d1.border_view() == d2.border_view(),
    ensures
        d1.area_view() == d2.area_view(),
        d1.cells_view().len() == d2.cells_view().len(),
        forall|i: int|
            0 <= i < d1.cells_view().len() ==> {
                let c1 = #[trigger] d1.cells_view()[i];
                let c2 = d2.cells_view()[i];
                &&& c1.tri == c2.tri
                &&& c1.neighbors@ == c2.neighbors@
                &&& c1.is_boundary == c2.is_boundary
                &&& c1.center == c2.center
                &&& c1.value == c2.value
            },
{
    let kept = d1.kept();
    assert(kept == d2.kept());
    assert forall|i: int| 0 <= i < d1.cells_view().len() implies {
        let c1 = #[trigger] d1.cells_view()[i];
        let c2 = d2.cells_view()[i];
        &&& c1.tri == c2.tri
        &&& c1.neighbors@ == c2.neighbors@
        &&& c1.is_boundary == c2.is_boundary
        &&& c1.center == c2.center
        &&& c1.value == c2.value
    } by {
        let c1 = d1.cells_view()[i];
        let c2 = d2.cells_view()[i];
        assert(cell_ok(kept, d1.verts_view(), i, c1));
        assert(cell_ok(kept, d2.verts_view(), i, c2));
        let t = kept[i];
        assert forall|k: int| 0 <= k < 3 implies c1.neighbors@[k] == c2.neighbors@[k] by {
            let a = corner(t, k);
            let b = corner(t, (k + 1) % 3);
            assert(neighbor_ok(kept, i, a, b, c1.neighbors@[k]));
            assert(neighbor_ok(kept, i, a, b, c2.neighbors@[k]));
            match c1.neighbors@[k] {
                Some(j1) => {
                    assert(sole_partner(kept, i, a, b, j1 as int));
                    match c2.neighbors@[k] {
                        Some(j2) => {
                            lemma_partner_unique(kept, i, a, b, j1 as int, j2 as int);
                        },
                        None => {
                            assert(!sole_partner(kept, i, a, b, j1 as int));
                        },
                    }
                },
                None => {
                    match c2.neighbors@[k] {
                        Some(j2) => {
                            assert(!sole_partner(kept, i, a, b, j2 as int));
                        },
                        None => {},
                    }
                },
            }
        }
        assert(c1.neighbors@ =~= c2.neighbors@);
    }
}

proof fn lemma_partner_swap(tris: Seq<Tri>, i: int, a: usize, b: usize, j: int, a2: usize, b2: usize)
    requires
        0 <= i < tris.len(),
        has_edge(tris[i], a, b),
        sole_partner(tris, i, a, b, j),
        same_pair(a2, b2, a, b),
    ensures
        sole_partner(tris, j, a2, b2, i),
{
    reveal(sole_partner);
    assert forall|m: int|
        0 <= m < tris.len() && m != j && #[trigger] has_edge(tris[m], a2, b2) implies m == i by {
        assert(has_edge(tris[m], a, b));
    }
}

proof fn lemma_partner_records_back(tris: Seq<Tri>, i: int, a: usize, b: usize, j: int, cj: MeshCell)
    requires
        0 <= i < tris.len(),
        has_edge(tris[i], a, b),
        sole_partner(tris, i, a, b, j),
        cj.tri == tris[j],
        forall|k: int|
            0 <= k < 3 ==> neighbor_ok(
                tris,
                j,
                corner(cj.tri, k),
                corner(cj.tri, (k + 1) % 3),
                #[trigger] cj.neighbors@[k],
            ),
    ensures
        exists|k2: int|
            0 <= k2 < 3 && cj.neighbors@[k2] == Some(i as usize) && #[trigger] edge_is(
                cj.tri,
                k2,
                a,
                b,
            ),
{
    let u = cj.tri;
    assert(has_edge(u, a, b)) by {
        reveal(sole_partner);
    }
    let k2: int = if edge_is(u, 0, a, b) {
        0
    } else if edge_is(u, 1, a, b) {
        1
    } else {
        2
    };
    let a2 = corner(u, k2);
    let b2 = corner(u, (k2 + 1) % 3);
    lemma_partner_swap(tris, i, a, b, j, a2, b2);
    assert(neighbor_ok(tris, j, a2, b2, cj.neighbors@[k2]));
    match cj.neighbors@[k2] {
        Some(x) => {
            lemma_partner_unique(tris, j, a2, b2, x as int, i);
        },
        None => {},
    }
    assert(edge_is(u, k2, a, b));
}

/// Adjacency is symmetric: where cell `i` records cell `j` across its edge
/// `k`, cell `j` records cell `i` across an edge of its own joining the same
/// two vertices.
pub proof fn lemma_adjacency_symmetric(d: &Domain, i: int, k: int, j: usize)
    requires
        d.wf(),
        0 <= i < d.cells_view().len(),
        0 <= k < 3,
        d.cells_view()[i].neighbors@[k] == Some(j),
    ensures
        0 <= j < d.cells_view().len(),
        exists|k2: int|
            0 <= k2 < 3 && d.cells_view()[j as int].neighbors@[k2] == Some(i as usize)
                && #[trigger] edge_is(
                d.cells_view()[j as int].tri,
                k2,
                corner(d.cells_view()[i].tri, k),
                corner(d.cells_view()[i].tri, (k + 1) % 3),
            ),
{
    let kept = d.kept();
    let ci = d.cells_view()[i];
    assert(cell_ok(kept, d.verts_view(), i, ci));
    let t = kept[i];
    let a = corner(t, k);
    let b = corner(t, (k + 1) % 3);
    assert(neighbor_ok(kept, i, a, b, ci.neighbors@[k]));
    assert(sole_partner(kept, i, a, b, j as int));
    assert(0 <= j < kept.len()) by {
        reveal(sole_partner);
    }
    let cj = d.cells_view()[j as int];
    assert(cell_ok(kept, d.verts_view(), j as int, cj));
    lemma_partner_records_back(kept, i, a, b, j as int, cj);
}

/// A cell is a boundary cell iff it records fewer than three neighbors.
pub proof fn lemma_boundary_iff_fewer_neighbors(d: &Domain, i: int)
    requires
        d.wf(),
        0 <= i < d.cells_view().len(),
    ensures
        d.cells_view()[i].is_boundary <==> neighbor_count(d.cells_view()[i]) < 3,
{
    assert(cell_ok(d.kept(), d.verts_view(), i, d.cells_view()[i]));
}

/// The border of the rectangle with opposite corners `lower` and `upper`.
pub open spec fn rect_border(lower: Vertex, upper: Vertex) -> Seq<Vertex> {
    seq![lower, Vertex { x: lower.x, y: upper.y }, upper, Vertex { x: upper.x, y: lower.y }]
}

} // verus!
