use convex_hull::convex_hull::ConvexHull;
use convex_hull::edge::{edge_eq, Edge};
use convex_hull::functions::{create_rng_ponts, point_above_plane, HullError};
use convex_hull::plane::{plane_eq, Plane};
use convex_hull::point::{point_eq, Point};

fn pt(x: i32, y: i32, z: i32) -> Point {
    Point::new(None, x, y, z)
}

fn all_edges(planes: &[Plane]) -> Vec<Edge> {
    let mut es = Vec::new();
    for p in planes {
        es.append(&mut p.get_edges());
    }
    es
}

fn count_edge(es: &[Edge], e: &Edge) -> usize {
    es.iter().filter(|x| edge_eq(x, e)).count()
}

fn distinct_vertex_count(planes: &[Plane]) -> usize {
    let mut vs: Vec<Point> = Vec::new();
    for p in planes {
        for v in p.get_points() {
            if !vs.iter().any(|w| point_eq(w, &v)) {
                vs.push(v);
            }
        }
    }
    vs.len()
}

fn distinct_edge_count(planes: &[Plane]) -> usize {
    let es = all_edges(planes);
    let mut ds: Vec<Edge> = Vec::new();
    for e in &es {
        if !ds.iter().any(|d| edge_eq(d, e)) {
            ds.push(e.clone());
        }
    }
    ds.len()
}

fn cube_with_interior_point() -> Vec<Point> {
    vec![
        pt(0, 0, 0),
        pt(2, 0, 0),
        pt(0, 2, 0),
        pt(2, 2, 0),
        pt(0, 0, 2),
        pt(2, 0, 2),
        pt(0, 2, 2),
        pt(2, 2, 2),
        pt(1, 1, 1),
    ]
}

#[test]
fn cube_yields_twelve_triangles() {
    let points = cube_with_interior_point();
    let mut hull = ConvexHull::new(points);
    hull.quick_hull().unwrap();
    assert_eq!(hull.planes.len(), 12);
}

#[test]
fn cube_excludes_interior_point() {
    let points = cube_with_interior_point();
    let mut hull = ConvexHull::new(points);
    hull.quick_hull().unwrap();
    let interior = pt(1, 1, 1);
    for plane in &hull.planes {
        for v in plane.get_points() {
            assert!(!point_eq(&v, &interior));
        }
    }
}

#[test]
fn cube_hull_contains_all_points() {
    // no input point is strictly above any finalized face
    let points = cube_with_interior_point();
    let mut hull = ConvexHull::new(points.clone());
    hull.quick_hull().unwrap();
    for plane in &hull.planes {
        for p in &points {
            assert!(!point_above_plane(plane, p));
        }
    }
}

#[test]
fn cube_hull_is_edge_closed() {
    // every edge of the output belongs to exactly two faces
    let points = cube_with_interior_point();
    let mut hull = ConvexHull::new(points);
    hull.quick_hull().unwrap();
    let es = all_edges(&hull.planes);
    for e in &es {
        assert_eq!(count_edge(&es, e), 2);
    }
}

#[test]
fn cube_hull_satisfies_euler_relation() {
    let points = cube_with_interior_point();
    let mut hull = ConvexHull::new(points);
    hull.quick_hull().unwrap();
    let f = hull.planes.len() as i64;
    let v = distinct_vertex_count(&hull.planes) as i64;
    let e = distinct_edge_count(&hull.planes) as i64;
    assert_eq!(v, 8);
    assert_eq!(e, 3 * f / 2);
    assert_eq!(v - e + f, 2);
}

#[test]
fn quick_hull_is_idempotent_on_same_input() {
    let points = cube_with_interior_point();
    let mut first = ConvexHull::new(points.clone());
    first.quick_hull().unwrap();
    let mut second = ConvexHull::new(points);
    second.quick_hull().unwrap();
    assert_eq!(first.planes.len(), second.planes.len());
    for p in &first.planes {
        assert!(second.planes.iter().any(|q| plane_eq(p, q)));
    }
    for q in &second.planes {
        assert!(first.planes.iter().any(|p| plane_eq(p, q)));
    }
}

#[test]
fn collinear_input_reports_degenerate() {
    let points = vec![pt(0, 0, 0), pt(1, 0, 0), pt(2, 0, 0), pt(3, 0, 0), pt(4, 0, 0)];
    let mut hull = ConvexHull::new(points);
    assert_eq!(hull.quick_hull(), Err(HullError::DegenerateInput));
    assert!(hull.planes.is_empty());
}

#[test]
fn flat_input_reports_degenerate() {
    let points = vec![pt(0, 0, 0), pt(3, 0, 0), pt(0, 3, 0), pt(3, 3, 0), pt(1, 2, 0)];
    let mut hull = ConvexHull::new(points);
    assert_eq!(hull.quick_hull(), Err(HullError::DegenerateInput));
}

#[test]
fn too_few_points_reported() {
    let points = vec![pt(0, 0, 0), pt(1, 0, 0), pt(0, 1, 0)];
    let mut hull = ConvexHull::new(points);
    assert_eq!(hull.quick_hull(), Err(HullError::TooFewPoints));
}

#[test]
fn single_outlier_gives_enclosing_hull() {
    // four coplanar points and one point off the plane
    let points = vec![pt(0, 0, 0), pt(2, 0, 0), pt(0, 2, 0), pt(2, 2, 0), pt(1, 1, 3)];
    let mut hull = ConvexHull::new(points.clone());
    hull.quick_hull().unwrap();
    assert!(hull.planes.len() >= 4);
    for plane in &hull.planes {
        for p in &points {
            assert!(!point_above_plane(plane, p));
        }
    }
    let es = all_edges(&hull.planes);
    for e in &es {
        assert_eq!(count_edge(&es, e), 2);
    }
}

#[test]
fn tetrahedron_hull_is_itself() {
    let points = vec![pt(0, 0, 0), pt(4, 0, 0), pt(0, 4, 0), pt(0, 0, 4)];
    let mut hull = ConvexHull::new(points.clone());
    hull.quick_hull().unwrap();
    assert_eq!(hull.planes.len(), 4);
    let f = hull.planes.len() as i64;
    let v = distinct_vertex_count(&hull.planes) as i64;
    let e = distinct_edge_count(&hull.planes) as i64;
    assert_eq!(v - e + f, 2);
    for plane in &hull.planes {
        for p in &points {
            assert!(!point_above_plane(plane, p));
        }
    }
}

#[test]
fn random_points_stay_in_range() {
    let points = create_rng_ponts(25);
    assert_eq!(points.len(), 25);
    for p in &points {
        assert!(0 <= p.x && p.x < 200);
        assert!(0 <= p.y && p.y < 200);
        assert!(0 <= p.z && p.z < 200);
        assert!(p.data.is_none());
    }
}

#[test]
fn constructor_and_iter_expose_points() {
    let points = vec![pt(1, 2, 3), pt(4, 5, 6)];
    let hull = ConvexHull::new(points.clone());
    assert_eq!(hull.planes.len(), 0);
    assert_eq!(hull.edges.len(), 0);
    let seen = hull.iter();
    assert_eq!(seen.len(), 2);
    assert!(point_eq(&seen[0], &points[0]));
    assert!(point_eq(&seen[1], &points[1]));
}

#[test]
fn octahedron_hull_has_eight_faces() {
    let points = vec![
        pt(3, 0, 0),
        pt(-3, 0, 0),
        pt(0, 3, 0),
        pt(0, -3, 0),
        pt(0, 0, 3),
        pt(0, 0, -3),
        pt(0, 0, 0),
    ];
    let mut hull = ConvexHull::new(points.clone());
    hull.quick_hull().unwrap();
    assert_eq!(hull.planes.len(), 8);
    let f = hull.planes.len() as i64;
    let v = distinct_vertex_count(&hull.planes) as i64;
    let e = distinct_edge_count(&hull.planes) as i64;
    assert_eq!(v, 6);
    assert_eq!(v - e + f, 2);
    for plane in &hull.planes {
        for p in &points {
            assert!(!point_above_plane(plane, p));
        }
    }
    let es = all_edges(&hull.planes);
    for e in &es {
        assert_eq!(count_edge(&es, e), 2);
    }
}

#[test]
fn extreme_coordinates_stay_exact() {
    // a tetrahedron at the outermost accepted coordinates
    let points = vec![
        pt(-10000, -10000, -10000),
        pt(10000, -10000, -10000),
        pt(-10000, 10000, -10000),
        pt(-10000, -10000, 10000),
    ];
    let mut hull = ConvexHull::new(points.clone());
    hull.quick_hull().unwrap();
    assert_eq!(hull.planes.len(), 4);
    for plane in &hull.planes {
        for p in &points {
            assert!(!point_above_plane(plane, p));
        }
    }
}
