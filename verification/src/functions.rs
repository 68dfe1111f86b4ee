//! Vector arithmetic, the geometric predicates, the initial-simplex search,
//! and the farthest-point selection.  All arithmetic is exact: the epsilon
//! classifications of the geometry reduce to integer sign tests.
use vstd::prelude::*;
use rand::Rng;
use crate::plane::Plane;
use crate::point::{payload_eq, Point};
use crate::vec3::{
    abs1, coplanar_test, cross3, dot3, in_bounds, is_above, is_collinear, lemma_mul_bound,
    lemma_norm2_normal_bound, lemma_norm2_zero, lemma_normal_bound, lemma_plane_dot_bound, norm2,
    normal_in_bounds, normal_of, sub3, V3,
};

verus! {

/// Why a hull could not be built.
#[derive(Clone, Copy, Debug, PartialEq, Eq, Structural)]
pub enum HullError {
    /// Fewer than four input points were supplied.
    TooFewPoints,
    /// No non-collinear triple with a strictly positively oriented fourth
    /// point exists: the input is degenerate (flat or collinear).
    DegenerateInput,
    /// The refinement ran out of its defensive iteration budget, or the
    /// finalized faces did not form a closed surface of at least four
    /// faces.  Neither arises on inputs within the documented bounds; the
    /// error replaces ever returning a partial hull.
    Incomplete,
}

pub fn subtract_vectors(a: &Point, b: &Point) -> (r: Point)
    requires
        i32::MIN <= sub3(a@, b@).x <= i32::MAX,
        i32::MIN <= sub3(a@, b@).y <= i32::MAX,
        i32::MIN <= sub3(a@, b@).z <= i32::MAX,
    ensures
        r@ == sub3(a@, b@),
        r.data is None,
{
    let x = (a.x as i64 - b.x as i64) as i32;
    let y = (a.y as i64 - b.y as i64) as i32;
    let z = (a.z as i64 - b.z as i64) as i32;
    let r = Point::new(None, x, y, z);
    proof {
        assert(r@ =~= sub3(a@, b@));
    }
    r
}

pub fn cross_product(a: &Point, b: &Point) -> (r: Point)
    requires
        i32::MIN <= cross3(a@, b@).x <= i32::MAX,
        i32::MIN <= cross3(a@, b@).y <= i32::MAX,
        i32::MIN <= cross3(a@, b@).z <= i32::MAX,
    ensures
        r@ == cross3(a@, b@),
        r.data is None,
{
    proof {
        lemma_mul_bound(a@.y, b@.z, 0x8000_0000);
        lemma_mul_bound(a@.z, b@.y, 0x8000_0000);
        lemma_mul_bound(a@.z, b@.x, 0x8000_0000);
        lemma_mul_bound(a@.x, b@.z, 0x8000_0000);
        lemma_mul_bound(a@.x, b@.y, 0x8000_0000);
        lemma_mul_bound(a@.y, b@.x, 0x8000_0000);
    }
    let x = ((a.y as i128) * (b.z as i128) - (a.z as i128) * (b.y as i128)) as i32;
    let y = ((a.z as i128) * (b.x as i128) - (a.x as i128) * (b.z as i128)) as i32;
    let z = ((a.x as i128) * (b.y as i128) - (a.y as i128) * (b.x as i128)) as i32;
    let r = Point::new(None, x, y, z);
    proof {
        assert(r@ =~= cross3(a@, b@));
    }
    r
}

pub fn dot_product(a: &Point, b: &Point) -> (r: i64)
    requires
        i64::MIN <= dot3(a@, b@) <= i64::MAX,
    ensures
        r == dot3(a@, b@),
{
    proof {
        lemma_mul_bound(a@.x, b@.x, 0x8000_0000);
        lemma_mul_bound(a@.y, b@.y, 0x8000_0000);
        lemma_mul_bound(a@.z, b@.z, 0x8000_0000);
    }
    let s = (a.x as i128) * (b.x as i128) + (a.y as i128) * (b.y as i128) + (a.z as i128) * (b.z
        as i128);
    s as i64
}

/// Squared magnitude; exact, so threshold comparisons are sign tests.
pub fn magnitude(vector: &Point) -> (r: i64)
    requires
        norm2(vector@) <= i64::MAX,
    ensures
        r == norm2(vector@),
        r >= 0,
{
    proof {
        lemma_mul_bound(vector@.x, vector@.x, 0x8000_0000);
        lemma_mul_bound(vector@.y, vector@.y, 0x8000_0000);
        lemma_mul_bound(vector@.z, vector@.z, 0x8000_0000);
        lemma_norm2_zero(vector@);
    }
    let s = (vector.x as i128) * (vector.x as i128) + (vector.y as i128) * (vector.y as i128) + (
    vector.z as i128) * (vector.z as i128);
    s as i64
}

/// True iff the point lies strictly on the outward side of the face, judged
/// by the normal recomputed from the vertices.
pub fn point_above_plane(plane: &Plane, point: &Point) -> (r: bool)
    requires
        plane.bounded(),
        in_bounds(point@),
    ensures
        r == is_above(plane.point_a@, plane.point_b@, plane.point_c@, point@),
{
    proof {
        lemma_normal_bound(plane.point_a@, plane.point_b@, plane.point_c@);
        lemma_plane_dot_bound(
            normal_of(plane.point_a@, plane.point_b@, plane.point_c@),
            point@,
            plane.point_a@,
        );
    }
    let vector1 = subtract_vectors(&plane.point_b, &plane.point_a);
    let vector2 = subtract_vectors(&plane.point_c, &plane.point_a);
    let normal = cross_product(&vector1, &vector2);
    let point_vector = subtract_vectors(point, &plane.point_a);
    dot_product(&normal, &point_vector) > 0
}

/// True iff the three points lie on one line: their triangle's normal has
/// squared magnitude zero.
pub fn are_collinear(a: &Point, b: &Point, c: &Point) -> (r: bool)
    requires
        in_bounds(a@),
        in_bounds(b@),
        in_bounds(c@),
    ensures
        r == is_collinear(a@, b@, c@),
{
    proof {
        lemma_normal_bound(a@, b@, c@);
        lemma_norm2_normal_bound(normal_of(a@, b@, c@));
        lemma_norm2_zero(normal_of(a@, b@, c@));
    }
    let vector1 = subtract_vectors(b, a);
    let vector2 = subtract_vectors(c, a);
    let normal = cross_product(&vector1, &vector2);
    magnitude(&normal) == 0
}

/// The signed coplanarity test: true unless d is strictly above the
/// oriented triangle (a, b, c).  Deliberately one-sided.
pub fn are_coplanar(a: &Point, b: &Point, c: &Point, d: &Point) -> (r: bool)
    requires
        in_bounds(a@),
        in_bounds(b@),
        in_bounds(c@),
        in_bounds(d@),
    ensures
        r == coplanar_test(a@, b@, c@, d@),
{
    proof {
        lemma_normal_bound(a@, b@, c@);
        lemma_plane_dot_bound(normal_of(a@, b@, c@), d@, a@);
    }
    let vector1 = subtract_vectors(b, a);
    let vector2 = subtract_vectors(c, a);
    let vector3 = subtract_vectors(d, a);
    let normal = cross_product(&vector1, &vector2);
    dot_product(&normal, &vector3) <= 0
}

/// A valid seed for the initial simplex: indices in scan order whose first
/// three points are not collinear and whose fourth is strictly above them.
pub open spec fn good_quad(ps: Seq<Point>, i: int, j: int, k: int, l: int) -> bool {
    &&& 0 <= i
    &&& i < j
    &&& j < k
    &&& k < l
    &&& l < ps.len()
    &&& !is_collinear(ps[i]@, ps[j]@, ps[k]@)
    &&& !coplanar_test(ps[i]@, ps[j]@, ps[k]@, ps[l]@)
}

pub open spec fn exists_good_quad(ps: Seq<Point>) -> bool {
    exists|i: int, j: int, k: int, l: int| good_quad(ps, i, j, k, l)
}

/// Strict lexicographic order on index quadruples: the order in which the
/// simplex search visits them.
pub open spec fn quad_lex_lt(
    i: int,
    j: int,
    k: int,
    l: int,
    i2: int,
    j2: int,
    k2: int,
    l2: int,
) -> bool {
    ||| i < i2
    ||| (i == i2 && j < j2)
    ||| (i == i2 && j == j2 && k < k2)
    ||| (i == i2 && j == j2 && k == k2 && l < l2)
}

/// The quadruple the scan finds: valid, and no valid quadruple precedes it.
pub open spec fn is_first_good_quad(ps: Seq<Point>, i: int, j: int, k: int, l: int) -> bool {
    &&& good_quad(ps, i, j, k, l)
    &&& forall|i2: int, j2: int, k2: int, l2: int|
        good_quad(ps, i2, j2, k2, l2) ==> !quad_lex_lt(i2, j2, k2, l2, i, j, k, l)
}

/// The seed of the simplex is a function of the input alone: two quadruples
/// that are each the first valid one coincide.  Rerunning the search on the
/// same points therefore selects the same seed — the deterministic core of
/// rerunning the whole construction.
pub proof fn lemma_first_good_quad_unique(
    ps: Seq<Point>,
    i1: int,
    j1: int,
    k1: int,
    l1: int,
    i2: int,
    j2: int,
    k2: int,
    l2: int,
)
    requires
        is_first_good_quad(ps, i1, j1, k1, l1),
        is_first_good_quad(ps, i2, j2, k2, l2),
    ensures
        i1 == i2 && j1 == j2 && k1 == k2 && l1 == l2,
{
    assert(!quad_lex_lt(i2, j2, k2, l2, i1, j1, k1, l1));
    assert(!quad_lex_lt(i1, j1, k1, l1, i2, j2, k2, l2));
}

/// Scan the points in index order for the first quadruple that can seed a
/// simplex: a non-collinear triple followed by a strictly positively
/// oriented fourth point.
pub fn find_non_collinear_points(points: &Vec<Point>) -> (r: Result<Vec<Point>, HullError>)
    requires
        forall|m: int| 0 <= m < points@.len() ==> in_bounds(#[trigger] points@[m]@),
    ensures
        r is Ok <==> (points@.len() >= 4 && exists_good_quad(points@)),
        r == Err::<Vec<Point>, HullError>(HullError::TooFewPoints) <==> points@.len() < 4,
        r == Err::<Vec<Point>, HullError>(HullError::DegenerateInput) <==> (points@.len() >= 4
            && !exists_good_quad(points@)),
        r is Ok ==> {
            &&& r->Ok_0@.len() == 4
            &&& exists|i: int, j: int, k: int, l: int|
                {
                    &&& is_first_good_quad(points@, i, j, k, l)
                    &&& r->Ok_0@[0]@ == points@[i]@
                    &&& r->Ok_0@[1]@ == points@[j]@
                    &&& r->Ok_0@[2]@ == points@[k]@
                    &&& r->Ok_0@[3]@ == points@[l]@
                    &&& payload_eq(points@[i].data, r->Ok_0@[0].data)
                    &&& payload_eq(points@[j].data, r->Ok_0@[1].data)
                    &&& payload_eq(points@[k].data, r->Ok_0@[2].data)
                    &&& payload_eq(points@[l].data, r->Ok_0@[3].data)
                }
        },
{
    let n = points.len();
    if n < 4 {
        return Err(HullError::TooFewPoints);
    }
    let mut i: usize = 0;
    while i < n
        invariant
            n == points@.len(),
            4 <= n,
            0 <= i <= n,
            forall|m: int| 0 <= m < points@.len() ==> in_bounds(#[trigger] points@[m]@),
            forall|i2: int, j2: int, k2: int, l2: int|
                i2 < i ==> !good_quad(points@, i2, j2, k2, l2),
        decreases n - i,
    {
        let mut j: usize = i + 1;
        while j < n
            invariant
                n == points@.len(),
                0 <= i < j <= n,
                forall|m: int| 0 <= m < points@.len() ==> in_bounds(#[trigger] points@[m]@),
                forall|i2: int, j2: int, k2: int, l2: int|
                    i2 < i ==> !good_quad(points@, i2, j2, k2, l2),
                forall|j2: int, k2: int, l2: int|
                    j2 < j ==> !good_quad(points@, i as int, j2, k2, l2),
            decreases n - j,
        {
            let mut k: usize = j + 1;
            while k < n
                invariant
                    n == points@.len(),
                    0 <= i < j < k <= n,
                    forall|m: int| 0 <= m < points@.len() ==> in_bounds(#[trigger] points@[m]@),
                    forall|i2: int, j2: int, k2: int, l2: int|
                        i2 < i ==> !good_quad(points@, i2, j2, k2, l2),
                    forall|j2: int, k2: int, l2: int|
                        j2 < j ==> !good_quad(points@, i as int, j2, k2, l2),
                    forall|k2: int, l2: int|
                        k2 < k ==> !good_quad(points@, i as int, j as int, k2, l2),
                decreases n - k,
            {
                if !are_collinear(&points[i], &points[j], &points[k]) {
                    let mut l: usize = k + 1;
                    while l < n
                        invariant
                            n == points@.len(),
                            0 <= i < j < k < l <= n,
                            !is_collinear(
                                points@[i as int]@,
                                points@[j as int]@,
                                points@[k as int]@,
                            ),
                            forall|m: int| 0 <= m < points@.len() ==> in_bounds(
                                #[trigger] points@[m]@,
                            ),
                            forall|i2: int, j2: int, k2: int, l2: int|
                                i2 < i ==> !good_quad(points@, i2, j2, k2, l2),
                            forall|j2: int, k2: int, l2: int|
                                j2 < j ==> !good_quad(points@, i as int, j2, k2, l2),
                            forall|k2: int, l2: int|
                                k2 < k ==> !good_quad(points@, i as int, j as int, k2, l2),
                            forall|l2: int|
                                l2 < l ==> !good_quad(points@, i as int, j as int, k as int, l2),
                        decreases n - l,
                    {
                        if !are_coplanar(&points[i], &points[j], &points[k], &points[l]) {
                            let r = vec![
                                points[i].clone(),
                                points[j].clone(),
                                points[k].clone(),
                                points[l].clone(),
                            ];
                            proof {
                                assert(good_quad(points@, i as int, j as int, k as int, l as int));
                                assert(is_first_good_quad(
                                    points@,
                                    i as int,
                                    j as int,
                                    k as int,
                                    l as int,
                                ));
                            }
                            return Ok(r);
                        }
                        l = l + 1;
                    }
                }
                k = k + 1;
            }
            j = j + 1;
        }
        i = i + 1;
    }
    Err(HullError::DegenerateInput)
}

/// Signed value of the stored-normal plane equation at p.
pub open spec fn plane_dot(pl: Plane, p: V3) -> int {
    dot3(pl.normal@, sub3(p, pl.point_a@))
}

/// The farthest-point choice is a function of the plane and the points
/// alone: at most one index carries a maximum over all points that is
/// strict over every earlier point, so rerunning the selection on the same
/// arguments picks the same point.
pub proof fn lemma_farthest_index_unique(pl: Plane, ps: Seq<Point>, idx1: int, idx2: int)
    requires
        0 <= idx1 < ps.len(),
        0 <= idx2 < ps.len(),
        forall|m: int|
            0 <= m < ps.len() ==> abs1(plane_dot(pl, #[trigger] ps[m]@)) <= abs1(
                plane_dot(pl, ps[idx1]@),
            ),
        forall|m: int|
            0 <= m < idx1 ==> abs1(plane_dot(pl, #[trigger] ps[m]@)) < abs1(
                plane_dot(pl, ps[idx1]@),
            ),
        forall|m: int|
            0 <= m < ps.len() ==> abs1(plane_dot(pl, #[trigger] ps[m]@)) <= abs1(
                plane_dot(pl, ps[idx2]@),
            ),
        forall|m: int|
            0 <= m < idx2 ==> abs1(plane_dot(pl, #[trigger] ps[m]@)) < abs1(
                plane_dot(pl, ps[idx2]@),
            ),
    ensures
        idx1 == idx2,
{
    if idx1 < idx2 {
        assert(abs1(plane_dot(pl, ps[idx1]@)) < abs1(plane_dot(pl, ps[idx2]@)));
        assert(abs1(plane_dot(pl, ps[idx2]@)) <= abs1(plane_dot(pl, ps[idx1]@)));
    }
    if idx2 < idx1 {
        assert(abs1(plane_dot(pl, ps[idx2]@)) < abs1(plane_dot(pl, ps[idx1]@)));
        assert(abs1(plane_dot(pl, ps[idx1]@)) <= abs1(plane_dot(pl, ps[idx2]@)));
    }
}

/// Among the given points, the first one strictly maximizing the distance to
/// the plane measured with its stored normal; None when every candidate lies
/// exactly on the plane (in particular when there are none).
pub fn farthest_point_from_plane(plane: &Plane, points: &[Point]) -> (r: Option<Point>)
    requires
        in_bounds(plane.point_a@),
        normal_in_bounds(plane.normal@),
        forall|m: int| 0 <= m < points@.len() ==> in_bounds(#[trigger] points@[m]@),
    ensures
        r is None <==> (forall|m: int|
            0 <= m < points@.len() ==> plane_dot(*plane, #[trigger] points@[m]@) == 0),
        r is Some ==> exists|idx: int|
            {
                &&& 0 <= idx < points@.len()
                &&& r->Some_0@ == points@[idx]@
                &&& payload_eq(points@[idx].data, r->Some_0.data)
                &&& abs1(plane_dot(*plane, points@[idx]@)) > 0
                &&& forall|m: int|
                    0 <= m < points@.len() ==> abs1(plane_dot(*plane, #[trigger] points@[m]@))
                        <= abs1(plane_dot(*plane, points@[idx]@))
                &&& forall|m: int|
                    0 <= m < idx ==> abs1(plane_dot(*plane, #[trigger] points@[m]@)) < abs1(
                        plane_dot(*plane, points@[idx]@),
                    )
            },
{
    let mut max_abs: i64 = 0;
    let mut best: Option<usize> = None;
    let n = points.len();
    let mut m: usize = 0;
    while m < n
        invariant
            n == points@.len(),
            0 <= m <= n,
            in_bounds(plane.point_a@),
            normal_in_bounds(plane.normal@),
            forall|mm: int| 0 <= mm < points@.len() ==> in_bounds(#[trigger] points@[mm]@),
            best is None ==> max_abs == 0 && (forall|mm: int|
                0 <= mm < m ==> plane_dot(*plane, #[trigger] points@[mm]@) == 0),
            best is Some ==> {
                let idx = best->0 as int;
                &&& 0 <= idx < m
                &&& max_abs == abs1(plane_dot(*plane, points@[idx]@))
                &&& max_abs > 0
                &&& forall|mm: int|
                    0 <= mm < m ==> abs1(plane_dot(*plane, #[trigger] points@[mm]@)) <= max_abs
                &&& forall|mm: int|
                    0 <= mm < idx ==> abs1(plane_dot(*plane, #[trigger] points@[mm]@)) < max_abs
            },
        decreases n - m,
    {
        proof {
            lemma_plane_dot_bound(plane.normal@, points@[m as int]@, plane.point_a@);
        }
        let point_vector = subtract_vectors(&points[m], &plane.point_a);
        let dot = dot_product(&plane.normal, &point_vector);
        let dist = if dot < 0 {
            -dot
        } else {
            dot
        };
        if dist > max_abs {
            max_abs = dist;
            best = Some(m);
        }
        m = m + 1;
    }
    match best {
        None => None,
        Some(idx) => Some(points[idx].clone()),
    }
}

/// Relies on rand: `thread_rng().sample(Uniform::new(lo, hi))` returns a
/// value uniformly drawn from the half-open range [lo, hi); `Uniform::new`
/// panics unless lo < hi, which the precondition rules out.
#[verifier::external_body]
fn sample_range(lo: i32, hi: i32) -> (r: i32)
    requires
        lo < hi,
    ensures
        lo <= r < hi,
{
    rand::thread_rng().sample(rand::distributions::Uniform::new(lo, hi))
}

/// Generate `it` random points with coordinates in [0, 200), payload-free.
pub fn create_rng_ponts(it: u32) -> (r: Vec<Point>)
    ensures
        r@.len() == it,
        forall|m: int|
            0 <= m < r@.len() ==> {
                &&& in_bounds(#[trigger] r@[m]@)
                &&& r@[m].data is None
                &&& 0 <= r@[m]@.x < 200
                &&& 0 <= r@[m]@.y < 200
                &&& 0 <= r@[m]@.z < 200
            },
{
    let mut v: Vec<Point> = Vec::new();
    let mut i: u32 = 0;
    while i < it
        invariant
            0 <= i <= it,
            v@.len() == i,
            forall|m: int|
                0 <= m < v@.len() ==> {
                    &&& in_bounds(#[trigger] v@[m]@)
                    &&& v@[m].data is None
                    &&& 0 <= v@[m]@.x < 200
                    &&& 0 <= v@[m]@.y < 200
                    &&& 0 <= v@[m]@.z < 200
                },
        decreases it - i,
    {
        let x = sample_range(0, 200);
        let y = sample_range(0, 200);
        let z = sample_range(0, 200);
        v.push(Point::new(None, x, y, z));
        i = i + 1;
    }
    v
}

} // verus!
