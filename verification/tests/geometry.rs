use convex_hull::functions::{
    are_collinear, are_coplanar, cross_product, dot_product, farthest_point_from_plane,
    find_non_collinear_points, magnitude, point_above_plane, subtract_vectors, HullError,
};
use convex_hull::plane::Plane;
use convex_hull::point::{point_eq, Point};

fn pt(x: i32, y: i32, z: i32) -> Point {
    Point::new(None, x, y, z)
}

#[test]
fn cross_product_of_axes() {
    let r = cross_product(&pt(1, 0, 0), &pt(0, 1, 0));
    assert!(point_eq(&r, &pt(0, 0, 1)));
    assert!(r.data.is_none());
}

#[test]
fn cross_product_anticommutes() {
    let a = pt(2, -3, 5);
    let b = pt(7, 1, -4);
    let ab = cross_product(&a, &b);
    let ba = cross_product(&b, &a);
    assert_eq!(ab.x, -ba.x);
    assert_eq!(ab.y, -ba.y);
    assert_eq!(ab.z, -ba.z);
    assert_eq!(ab.x, (-3) * (-4) - 5 * 1);
    assert_eq!(ab.y, 5 * 7 - 2 * (-4));
    assert_eq!(ab.z, 2 * 1 - (-3) * 7);
}

#[test]
fn dot_product_exact() {
    assert_eq!(dot_product(&pt(1, 2, 3), &pt(4, 5, 6)), 32);
    assert_eq!(dot_product(&pt(1, 0, 0), &pt(0, 1, 0)), 0);
    assert_eq!(dot_product(&pt(-2, 3, -4), &pt(5, -6, 7)), -10 - 18 - 28);
}

#[test]
fn magnitude_is_squared() {
    assert_eq!(magnitude(&pt(1, 2, 3)), 14);
    assert_eq!(magnitude(&pt(0, 0, 0)), 0);
    assert_eq!(magnitude(&pt(-3, 4, 0)), 25);
}

#[test]
fn subtract_vectors_exact() {
    let r = subtract_vectors(&pt(5, 3, 1), &pt(1, 1, 1));
    assert!(point_eq(&r, &pt(4, 2, 0)));
}

#[test]
fn point_above_plane_sign() {
    let plane = Plane::new(pt(0, 0, 0), pt(1, 0, 0), pt(0, 1, 0));
    assert!(point_above_plane(&plane, &pt(0, 0, 5)));
    assert!(!point_above_plane(&plane, &pt(0, 0, -5)));
    // a point exactly on the plane is not above it
    assert!(!point_above_plane(&plane, &pt(7, -2, 0)));
}

#[test]
fn collinear_classification() {
    assert!(are_collinear(&pt(0, 0, 0), &pt(1, 1, 1), &pt(2, 2, 2)));
    assert!(!are_collinear(&pt(0, 0, 0), &pt(1, 0, 0), &pt(0, 1, 0)));
    // two coincident points are always collinear with any third
    assert!(are_collinear(&pt(3, 3, 3), &pt(3, 3, 3), &pt(9, 1, 4)));
}

#[test]
fn coplanar_test_is_signed() {
    let a = pt(0, 0, 0);
    let b = pt(1, 0, 0);
    let c = pt(0, 1, 0);
    // exactly on the plane: coplanar
    assert!(are_coplanar(&a, &b, &c, &pt(5, 5, 0)));
    // below the oriented plane counts as coplanar too: the test is one-sided
    assert!(are_coplanar(&a, &b, &c, &pt(0, 0, -1)));
    // strictly above is the only way to be non-coplanar
    assert!(!are_coplanar(&a, &b, &c, &pt(0, 0, 1)));
}

#[test]
fn find_skips_collinear_triples() {
    let points = vec![pt(0, 0, 0), pt(1, 0, 0), pt(2, 0, 0), pt(0, 1, 0), pt(0, 0, 1)];
    let r = find_non_collinear_points(&points).unwrap();
    assert_eq!(r.len(), 4);
    // triple (0,1,2) is collinear, so the first seed is (0, 1, 3, 4)
    assert!(point_eq(&r[0], &pt(0, 0, 0)));
    assert!(point_eq(&r[1], &pt(1, 0, 0)));
    assert!(point_eq(&r[2], &pt(0, 1, 0)));
    assert!(point_eq(&r[3], &pt(0, 0, 1)));
}

#[test]
fn find_skips_negatively_oriented_fourth() {
    let points = vec![pt(0, 0, 0), pt(1, 0, 0), pt(0, 1, 0), pt(0, 0, -1), pt(0, 0, 1)];
    let r = find_non_collinear_points(&points).unwrap();
    // (0,0,-1) is below the oriented triple, so the fourth point is (0,0,1)
    assert!(point_eq(&r[3], &pt(0, 0, 1)));
}

#[test]
fn find_rejects_too_few_points() {
    let points = vec![pt(0, 0, 0), pt(1, 0, 0), pt(0, 1, 0)];
    assert!(matches!(find_non_collinear_points(&points), Err(HullError::TooFewPoints)));
}

#[test]
fn find_rejects_flat_input() {
    // four points in the z = 0 plane admit no positively oriented fourth
    let points = vec![pt(0, 0, 0), pt(1, 0, 0), pt(0, 1, 0), pt(1, 1, 0)];
    assert!(matches!(find_non_collinear_points(&points), Err(HullError::DegenerateInput)));
}

#[test]
fn farthest_point_maximizes_distance() {
    let plane = Plane::new(pt(0, 0, 0), pt(1, 0, 0), pt(0, 1, 0));
    let points = vec![pt(0, 0, 3), pt(1, 1, -5), pt(2, 2, 3)];
    let r = farthest_point_from_plane(&plane, &points).unwrap();
    // distance is measured by absolute value: the point below wins
    assert!(point_eq(&r, &pt(1, 1, -5)));
}

#[test]
fn farthest_point_takes_first_of_equals() {
    let plane = Plane::new(pt(0, 0, 0), pt(1, 0, 0), pt(0, 1, 0));
    let points = vec![pt(0, 0, 2), pt(5, 5, 2)];
    let r = farthest_point_from_plane(&plane, &points).unwrap();
    assert!(point_eq(&r, &pt(0, 0, 2)));
}

#[test]
fn farthest_point_none_when_all_on_plane() {
    let plane = Plane::new(pt(0, 0, 0), pt(1, 0, 0), pt(0, 1, 0));
    let points = vec![pt(3, 7, 0), pt(-4, 2, 0)];
    assert!(farthest_point_from_plane(&plane, &points).is_none());
    let empty: Vec<Point> = Vec::new();
    assert!(farthest_point_from_plane(&plane, &empty).is_none());
}
