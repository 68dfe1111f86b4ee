use convex_hull::edge::{edge_eq, Edge};
use convex_hull::plane::{plane_eq, Plane};
use convex_hull::point::{point_eq, Point};
use convex_hull::records::{hash, Data, Env};

fn pt(x: i32, y: i32, z: i32) -> Point {
    Point::new(None, x, y, z)
}

fn sample_data() -> Data {
    Data {
        authors_name: String::from("Ada Lovelace"),
        title: String::from("Notes"),
        gap_of_years: vec![1, 2],
        year_of_release: 1843,
        dblp_record: String::from("rec/ada/1"),
        awards: 3,
        kind: String::from("article"),
        co_author: vec![String::from("Babbage")],
        surname: String::from("Lovelace"),
    }
}

#[test]
fn hash_sums_code_points_mod_m() {
    // 'a' + 'b' + 'c' = 294
    assert_eq!(hash("abc", 97), 294 % 97);
    assert_eq!(hash("abc", 1000), 294);
    assert_eq!(hash("", 5), 0);
}

#[test]
fn hash_handles_non_ascii() {
    // U+00E9 has code point 233
    assert_eq!(hash("\u{e9}", 1000), 233);
    assert_eq!(hash("\u{e9}\u{e9}", 100), 466 % 100);
}

#[test]
fn env_getters_return_configured_lengths() {
    let env = Env::new(157, 331);
    assert_eq!(env.get_DBLP_RECORDS_LENGTH(), 157);
    assert_eq!(env.get_SURNAMES_LENGTH(), 331);
}

#[test]
fn point_equality_ignores_payload() {
    let bare = pt(7, 8, 9);
    let loaded = Point::new(Some(sample_data()), 7, 8, 9);
    assert!(point_eq(&bare, &loaded));
    assert!(!point_eq(&bare, &pt(7, 8, 10)));
}

#[test]
fn edge_equality_is_symmetric() {
    let e1 = Edge::new(pt(0, 0, 0), pt(1, 1, 1));
    let e2 = Edge::new(pt(1, 1, 1), pt(0, 0, 0));
    let e3 = Edge::new(pt(0, 0, 0), pt(2, 2, 2));
    assert!(edge_eq(&e1, &e2));
    assert!(edge_eq(&e1, &e1));
    assert!(!edge_eq(&e1, &e3));
}

#[test]
fn plane_equality_is_permutation_invariant() {
    let a = pt(0, 0, 0);
    let b = pt(1, 0, 0);
    let c = pt(0, 1, 0);
    let p = Plane::new(a.clone(), b.clone(), c.clone());
    let q = Plane::new(c.clone(), a.clone(), b.clone());
    let r = Plane::new(b.clone(), a.clone(), c.clone());
    assert!(plane_eq(&p, &q));
    assert!(plane_eq(&p, &r));
    let other = Plane::new(a, b, pt(0, 0, 1));
    assert!(!plane_eq(&p, &other));
}

#[test]
fn plane_new_computes_normal_and_edges() {
    let p = Plane::new(pt(0, 0, 0), pt(1, 0, 0), pt(0, 1, 0));
    assert!(point_eq(&p.normal, &pt(0, 0, 1)));
    let edges = p.get_edges();
    assert_eq!(edges.len(), 3);
    assert!(edge_eq(&edges[0], &Edge::new(pt(0, 0, 0), pt(1, 0, 0))));
    assert!(edge_eq(&edges[1], &Edge::new(pt(1, 0, 0), pt(0, 1, 0))));
    assert!(edge_eq(&edges[2], &Edge::new(pt(0, 1, 0), pt(0, 0, 0))));
    let vs = p.get_points();
    assert_eq!(vs.len(), 3);
    assert!(point_eq(&vs[0], &pt(0, 0, 0)));
}

#[test]
fn calculate_normal_refreshes_stored_normal() {
    let mut p = Plane::new(pt(0, 0, 0), pt(1, 0, 0), pt(0, 1, 0));
    p.point_c = pt(0, 2, 0);
    p.calculate_normal();
    assert!(point_eq(&p.normal, &pt(0, 0, 2)));
}
