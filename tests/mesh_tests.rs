use polymesh::domain::{gen_area, Domain};
use polymesh::geometry::{orient, point_in_triangle, segments_intersect, turns_back, GeomError};
use polymesh::mesh::{build_cells, centroid, find_partner, keep_inside, Centroid, Tri};
use polymesh::polygon::{check_border, is_inside, is_inside_frac, MeshError};
use polymesh::vertex::Vertex;

fn v(x: i32, y: i32) -> Vertex {
    Vertex::new(x, y)
}

fn unit_square() -> Vec<Vertex> {
    vec![v(0, 0), v(0, 1), v(1, 1), v(1, 0)]
}

fn concave_border() -> Vec<Vertex> {
    vec![
        v(-930, 758),
        v(672, 762),
        v(700, -100),
        v(-158, -718),
        v(-1050, -418),
        v(-514, -124),
        v(-390, 282),
    ]
}

#[test]
fn vertex_arithmetic() {
    let a = v(3, -4);
    let b = v(1, 2);
    assert_eq!(a.add(b), v(4, -2));
    assert_eq!(a.sub(b), v(2, -6));
    assert_eq!(a.scale_ret(3), v(9, -12));
    let mut c = a;
    c.scale(-2);
    assert_eq!(c, v(-6, 8));
    assert!(v(0, 0).is_zero());
    assert!(!a.is_zero());
}

#[test]
fn vertex_sweep_order() {
    assert!(v(5, 0) < v(0, 1));
    assert!(v(0, 1) < v(1, 1));
    assert!(v(2, 1) > v(1, 1));
    assert_eq!(v(1, 1).partial_cmp(&v(1, 1)), Some(std::cmp::Ordering::Equal));
    assert_eq!(v(1, 2).sweep_cmp(&v(7, 1)), std::cmp::Ordering::Greater);
}

#[test]
fn orientation_values() {
    assert_eq!(orient(v(0, 0), v(1, 0), v(0, 1)), 1);
    assert_eq!(orient(v(0, 0), v(0, 1), v(1, 0)), -1);
    assert_eq!(orient(v(0, 0), v(1, 1), v(2, 2)), 0);
    let big = orient(v(i32::MIN, i32::MIN), v(i32::MAX, i32::MIN), v(i32::MIN, i32::MAX));
    assert_eq!(big, (u32::MAX as i128) * (u32::MAX as i128));
}

#[test]
fn rectangle_classification() {
    let b = unit_square();
    assert!(is_inside_frac(&b, 1, 1, 2));
    assert!(!is_inside(&b, &v(2, 2)));
    let first = is_inside(&b, &v(0, 0));
    let second = is_inside(&b, &v(0, 0));
    assert_eq!(first, second);
    assert!(!is_inside_frac(&b, -1, 1, 2));
    assert!(!is_inside_frac(&b, 1, 3, 2));
}

#[test]
fn closing_edge_is_counted() {
    // The closing edge from (0, 2) back to (0, 0) is the only edge to the
    // right of the query point (-1, 1).
    let b = vec![v(0, 0), v(-4, 0), v(-4, 2), v(0, 2)];
    assert!(is_inside(&b, &v(-1, 1)));
    assert!(!is_inside(&b, &v(1, 1)));
}

#[test]
fn triangle_containment() {
    let a = v(0, 0);
    let b = v(4, 0);
    let c = v(0, 4);
    assert_eq!(point_in_triangle(a, b, c, v(1, 1)), Ok(true));
    assert_eq!(point_in_triangle(a, c, b, v(1, 1)), Ok(true));
    assert_eq!(point_in_triangle(a, b, c, v(3, 3)), Ok(false));
    assert_eq!(point_in_triangle(a, b, c, v(2, 2)), Ok(false));
    assert_eq!(point_in_triangle(a, b, c, v(0, 0)), Ok(false));
}

#[test]
fn collinear_triangle_is_degenerate() {
    let r = point_in_triangle(v(0, 0), v(1, 1), v(3, 3), v(2, 2));
    assert_eq!(r, Err(GeomError::DegenerateTriangle));
    let r = point_in_triangle(v(1, 1), v(1, 1), v(5, 0), v(2, 0));
    assert_eq!(r, Err(GeomError::DegenerateTriangle));
}

#[test]
fn segment_tests() {
    assert!(segments_intersect(v(0, 0), v(2, 2), v(0, 2), v(2, 0)));
    assert!(!segments_intersect(v(0, 0), v(1, 0), v(0, 1), v(1, 1)));
    assert!(segments_intersect(v(0, 0), v(2, 0), v(1, 0), v(1, 5)));
    assert!(segments_intersect(v(0, 0), v(2, 0), v(1, 0), v(3, 0)));
    assert!(!segments_intersect(v(0, 0), v(1, 0), v(2, 0), v(3, 0)));
    assert!(turns_back(v(0, 0), v(2, 0), v(1, 0)));
    assert!(!turns_back(v(0, 0), v(1, 0), v(2, 0)));
    assert!(!turns_back(v(0, 0), v(1, 0), v(1, 1)));
}

#[test]
fn border_checks() {
    assert_eq!(check_border(&vec![v(0, 0), v(1, 0)]), Err(MeshError::TooFewVertices));
    assert_eq!(check_border(&vec![]), Err(MeshError::TooFewVertices));
    assert_eq!(
        check_border(&vec![v(0, 0), v(1, 0), v(1, 0), v(0, 1)]),
        Err(MeshError::RepeatedVertex)
    );
    assert_eq!(
        check_border(&vec![v(0, 0), v(1, 0), v(0, 1), v(0, 0)]),
        Err(MeshError::RepeatedVertex)
    );
    // a bow tie
    assert_eq!(
        check_border(&vec![v(0, 0), v(2, 2), v(2, 0), v(0, 2)]),
        Err(MeshError::SelfIntersecting)
    );
    // collinear points fold back on themselves
    assert_eq!(
        check_border(&vec![v(0, 0), v(1, 0), v(2, 0)]),
        Err(MeshError::SelfIntersecting)
    );
    assert_eq!(check_border(&unit_square()), Ok(()));
    assert_eq!(check_border(&concave_border()), Ok(()));
}

#[test]
fn constructor_refuses_bad_border() {
    assert_eq!(
        Domain::new_from_border(vec![v(0, 0), v(1, 0)]).err(),
        Some(MeshError::TooFewVertices)
    );
    assert_eq!(Domain::new_from_rect(v(1, 1), v(1, 1)).err(), Some(MeshError::RepeatedVertex));
    assert_eq!(Domain::new_from_rect(v(0, 0), v(0, 5)).err(), Some(MeshError::RepeatedVertex));
}

#[test]
fn triangulation_of_square() {
    let area = gen_area(&unit_square());
    assert_eq!(area.len(), 2);
    for t in area.iter() {
        assert!(t.0 < 4 && t.1 < 4 && t.2 < 4);
        assert!(t.0 != t.1 && t.1 != t.2 && t.0 != t.2);
    }
}

#[test]
fn rectangle_domain() {
    let d = Domain::new_from_rect(v(0, 0), v(1, 1)).unwrap();
    assert_eq!(d.border(), &unit_square());
    assert_eq!(d.verts(), &unit_square());
    assert_eq!(d.area().len(), 2);
    // convex border: nothing is filtered
    assert_eq!(d.cells().len(), d.area().len());
    assert!(!d.is_empty());
    for (i, c) in d.cells().iter().enumerate() {
        assert_eq!(c.tri, d.area()[i]);
        let recorded = c.neighbors.iter().filter(|n| n.is_some()).count();
        assert_eq!(recorded, 1);
        assert!(c.is_boundary);
        assert_eq!(c.value, 0);
        assert_eq!(c.neighbors.iter().flatten().next(), Some(&(1 - i)));
    }
}

#[test]
fn convex_pentagon_keeps_every_candidate() {
    let b = vec![v(0, 0), v(4, 0), v(6, 3), v(2, 6), v(-2, 3)];
    let d = Domain::new_from_border(b).unwrap();
    assert_eq!(d.area().len(), 3);
    assert_eq!(d.cells().len(), d.area().len());
}

#[test]
fn concave_border_end_to_end() {
    let b = concave_border();
    let d = Domain::new_from_border(b.clone()).unwrap();
    assert!(!d.is_empty());
    assert!(d.cells().len() < d.area().len());
    // the hull edge from (-10.50, -4.18) to (-9.30, 7.58) bridges the notch
    assert!(d.area().iter().any(|t| t.shares_edge(0, 4)));
    for c in d.cells().iter() {
        assert!(is_inside_frac(&b, c.center.sum_x, c.center.sum_y, 3));
        assert!(!c.tri.shares_edge(0, 4));
    }
}

#[test]
fn adjacency_is_symmetric_and_flags_match() {
    let b = vec![v(0, 0), v(6, 0), v(6, 6), v(3, 2), v(0, 6)];
    let d = Domain::new_from_border(b).unwrap();
    let cells = d.cells();
    for (i, c) in cells.iter().enumerate() {
        for n in c.neighbors.iter().flatten() {
            assert!(cells[*n].neighbors.contains(&Some(i)));
        }
        let recorded = c.neighbors.iter().filter(|n| n.is_some()).count();
        assert_eq!(c.is_boundary, recorded < 3);
    }
}

#[test]
fn centroid_is_exact_sum() {
    let verts = vec![v(0, 0), v(3, 0), v(0, 3)];
    assert_eq!(centroid(&verts, Tri(0, 1, 2)), Centroid { sum_x: 3, sum_y: 3 });
}

#[test]
fn tri_construction_and_edges() {
    let verts = vec![v(0, 0), v(3, 0), v(0, 3)];
    let t = Tri::new(&verts, [2, 0, 1]);
    assert_eq!(t, Tri(2, 0, 1));
    assert!(t.shares_edge(0, 2));
    assert!(t.shares_edge(1, 0));
    assert!(!t.shares_edge(1, 1));
}

#[test]
fn partner_lookup() {
    let tris = vec![Tri(0, 1, 2), Tri(2, 1, 3), Tri(3, 4, 5)];
    assert_eq!(find_partner(&tris, 0, 1, 2), Some(1));
    assert_eq!(find_partner(&tris, 1, 2, 1), Some(0));
    assert_eq!(find_partner(&tris, 0, 0, 1), None);
    // an edge on three triangles records no neighbor
    let tris = vec![Tri(0, 1, 2), Tri(1, 0, 3), Tri(0, 1, 4)];
    assert_eq!(find_partner(&tris, 0, 0, 1), None);
}

#[test]
fn cells_from_hand_made_triangles() {
    let verts = vec![v(0, 0), v(2, 0), v(2, 2), v(0, 2)];
    let tris = vec![Tri(0, 1, 2), Tri(0, 2, 3)];
    let cells = build_cells(&verts, &tris);
    assert_eq!(cells.len(), 2);
    assert_eq!(cells[0].neighbors, [None, None, Some(1)]);
    assert_eq!(cells[1].neighbors, [Some(0), None, None]);
    assert!(cells[0].is_boundary && cells[1].is_boundary);
    assert_eq!(cells[0].center, Centroid { sum_x: 4, sum_y: 2 });
}

#[test]
fn filter_keeps_inside_candidates_in_order() {
    // an L shape: the triangle across the notch has its centroid outside
    let b = vec![v(0, 0), v(6, 0), v(6, 3), v(3, 3), v(3, 6), v(0, 6)];
    let area = vec![Tri(0, 1, 2), Tri(2, 4, 3), Tri(0, 4, 5), Tri(0, 2, 3)];
    let kept = keep_inside(&b, &area);
    assert_eq!(kept, vec![Tri(0, 1, 2), Tri(0, 4, 5), Tri(0, 2, 3)]);
}

#[test]
fn cell_point_containment() {
    let d = Domain::new_from_rect(v(0, 0), v(4, 4)).unwrap();
    let verts = d.verts();
    let inside_one: usize = d
        .cells()
        .iter()
        .filter(|c| c.vert_in(&v(1, 2), verts) == Ok(true))
        .count();
    assert_eq!(inside_one, 1);
    for c in d.cells().iter() {
        assert_eq!(c.vert_in(&v(9, 9), verts), Ok(false));
    }
    let flat = polymesh::mesh::MeshCell {
        tri: Tri(0, 1, 2),
        neighbors: [None, None, None],
        is_boundary: true,
        center: Centroid { sum_x: 0, sum_y: 0 },
        value: 0,
    };
    let line = vec![v(0, 0), v(1, 0), v(2, 0)];
    assert_eq!(flat.vert_in(&v(1, 0), &line), Err(GeomError::DegenerateTriangle));
}

#[test]
fn rectangle_from_swapped_corners() {
    let d = Domain::new_from_rect(v(2, 2), v(0, 0)).unwrap();
    assert_eq!(d.border(), &vec![v(2, 2), v(2, 0), v(0, 0), v(0, 2)]);
    assert_eq!(d.cells().len(), 2);
}
