//! The hull builder: owns the input points, the working set of open faces,
//! and the finalized hull faces, and runs the QuickHull refinement loop.
//!
//! The central guarantee is containment: when the computation succeeds, no
//! input point lies strictly above any face of the finished hull.
use vstd::prelude::*;
use crate::edge::{edge_eq, edge_sym_eq, Edge, EdgeV};
use crate::functions::{
    exists_good_quad, farthest_point_from_plane, find_non_collinear_points, is_first_good_quad,
    plane_dot, point_above_plane, HullError,
};
use crate::plane::{plane_eq, plane_perm_eq, Plane};
use crate::point::Point;
use crate::vec3::{
    in_bounds, is_above, lemma_collinear_of_repeat, lemma_normal_bound, lemma_vertices_on_plane,
    V3,
};

verus! {

/// v is the coordinate triple of some point of pts.
pub open spec fn pt_from(v: V3, pts: Seq<Point>) -> bool {
    exists|i: int| 0 <= i < pts.len() && #[trigger] pts[i]@ == v
}

pub open spec fn all_in_bounds(pts: Seq<Point>) -> bool {
    forall|m: int| 0 <= m < pts.len() ==> in_bounds(#[trigger] pts[m]@)
}

/// A face the algorithm may hold: well formed, within coordinate bounds,
/// pairwise distinct vertices, every vertex drawn from the input points.
pub open spec fn plane_ok(pl: Plane, pts: Seq<Point>) -> bool {
    &&& pl.wf()
    &&& pl.bounded()
    &&& pl.distinct_vertices()
    &&& pt_from(pl.point_a@, pts)
    &&& pt_from(pl.point_b@, pts)
    &&& pt_from(pl.point_c@, pts)
}

pub open spec fn all_planes_ok(ps: Seq<Plane>, pts: Seq<Point>) -> bool {
    forall|i: int| 0 <= i < ps.len() ==> plane_ok(#[trigger] ps[i], pts)
}

/// An edge the algorithm may hold: two distinct endpoints, in bounds and
/// drawn from the input points.
pub open spec fn edge_ok(e: Edge, pts: Seq<Point>) -> bool {
    &&& e@.start != e@.end
    &&& in_bounds(e@.start)
    &&& in_bounds(e@.end)
    &&& pt_from(e@.start, pts)
    &&& pt_from(e@.end, pts)
}

pub open spec fn all_edges_ok(es: Seq<Edge>, pts: Seq<Point>) -> bool {
    forall|m: int| 0 <= m < es.len() ==> edge_ok(#[trigger] es[m], pts)
}

/// No input point lies strictly above the face.
pub open spec fn no_point_above(pl: Plane, pts: Seq<Point>) -> bool {
    forall|j: int|
        0 <= j < pts.len() ==> !is_above(pl.point_a@, pl.point_b@, pl.point_c@, #[trigger] pts[j]@)
}

/// Containment: no input point lies strictly above any face of the set.
pub open spec fn hull_closed(ps: Seq<Plane>, pts: Seq<Point>) -> bool {
    forall|i: int| 0 <= i < ps.len() ==> no_point_above(#[trigger] ps[i], pts)
}

/// One of the three boundary edges of a face, by position.
pub open spec fn plane_edge(pl: Plane, w: int) -> EdgeV {
    if w == 0 {
        pl.edge_a@
    } else if w == 1 {
        pl.edge_b@
    } else {
        pl.edge_c@
    }
}

/// How many of the face's three boundary edges equal e, symmetrically.
pub open spec fn edge_count_in_plane(pl: Plane, e: EdgeV) -> int {
    (if edge_sym_eq(pl.edge_a@, e) {
        1int
    } else {
        0int
    }) + (if edge_sym_eq(pl.edge_b@, e) {
        1int
    } else {
        0int
    }) + (if edge_sym_eq(pl.edge_c@, e) {
        1int
    } else {
        0int
    })
}

/// Total occurrences of the edge e over all boundary edges of the face set.
pub open spec fn edge_count(ps: Seq<Plane>, e: EdgeV) -> int
    decreases ps.len(),
{
    if ps.len() == 0 {
        0
    } else {
        edge_count(ps.drop_last(), e) + edge_count_in_plane(ps.last(), e)
    }
}

/// A closed (watertight) triangulated surface: every edge that appears in
/// the face set appears in exactly two faces.
pub open spec fn watertight(ps: Seq<Plane>) -> bool {
    forall|i: int, w: int|
        0 <= i < ps.len() && 0 <= w < 3 ==> edge_count(ps, #[trigger] plane_edge(ps[i], w)) == 2
}

/// Exact number of boundary edges of the face set symmetrically equal to e.
fn count_edge_occurrences(planes: &Vec<Plane>, e: &Edge) -> (c: u128)
    ensures
        c == edge_count(planes@, e@),
{
    let mut c: u128 = 0;
    let mut j: usize = 0;
    while j < planes.len()
        invariant
            0 <= j <= planes@.len(),
            c == edge_count(planes@.subrange(0, j as int), e@),
            c <= 3 * (j as u128),
        decreases planes@.len() - j,
    {
        let mut add: u128 = 0;
        if edge_eq(&planes[j].edge_a, e) {
            add = add + 1;
        }
        if edge_eq(&planes[j].edge_b, e) {
            add = add + 1;
        }
        if edge_eq(&planes[j].edge_c, e) {
            add = add + 1;
        }
        proof {
            assert(add == edge_count_in_plane(planes@[j as int], e@));
            assert(planes@.subrange(0, j as int + 1).drop_last() =~= planes@.subrange(0, j as int));
            assert(planes@.subrange(0, j as int + 1).last() == planes@[j as int]);
        }
        c = c + add;
        j = j + 1;
    }
    proof {
        assert(planes@.subrange(0, planes@.len() as int) =~= planes@);
    }
    c
}

/// Decide whether the face set is a closed surface: every boundary edge of
/// every face occurs exactly twice over the whole set.
fn is_watertight(planes: &Vec<Plane>) -> (r: bool)
    ensures
        r == watertight(planes@),
{
    let mut i: usize = 0;
    while i < planes.len()
        invariant
            0 <= i <= planes@.len(),
            forall|i2: int, w: int|
                0 <= i2 < i && 0 <= w < 3 ==> edge_count(
                    planes@,
                    #[trigger] plane_edge(planes@[i2], w),
                ) == 2,
        decreases planes@.len() - i,
    {
        let ca = count_edge_occurrences(planes, &planes[i].edge_a);
        let cb = count_edge_occurrences(planes, &planes[i].edge_b);
        let cc = count_edge_occurrences(planes, &planes[i].edge_c);
        if ca != 2 || cb != 2 || cc != 2 {
            proof {
                assert(plane_edge(planes@[i as int], 0) == planes@[i as int].edge_a@);
                assert(plane_edge(planes@[i as int], 1) == planes@[i as int].edge_b@);
                assert(plane_edge(planes@[i as int], 2) == planes@[i as int].edge_c@);
            }
            return false;
        }
        proof {
            assert forall|w: int| 0 <= w < 3 implies edge_count(
                planes@,
                plane_edge(planes@[i as int], w),
            ) == 2 by {
                assert(plane_edge(planes@[i as int], 0) == planes@[i as int].edge_a@);
                assert(plane_edge(planes@[i as int], 1) == planes@[i as int].edge_b@);
                assert(plane_edge(planes@[i as int], 2) == planes@[i as int].edge_c@);
            }
        }
        i = i + 1;
    }
    true
}

/// First index of an edge symmetrically equal to e, if any.
fn index_of_edge(v: &Vec<Edge>, e: &Edge) -> (r: Option<usize>)
    ensures
        r is Some ==> 0 <= r->0 < v@.len() && edge_sym_eq(v@[r->0 as int]@, e@) && (forall|m: int|
            0 <= m < r->0 ==> !edge_sym_eq(v@[m]@, e@)),
        r is None ==> forall|m: int| 0 <= m < v@.len() ==> !edge_sym_eq(v@[m]@, e@),
{
    let mut i: usize = 0;
    while i < v.len()
        invariant
            0 <= i <= v@.len(),
            forall|m: int| 0 <= m < i ==> !edge_sym_eq(v@[m]@, e@),
        decreases v@.len() - i,
    {
        if edge_eq(&v[i], e) {
            return Some(i);
        }
        i = i + 1;
    }
    None
}

/// First index of a face permutation-equal to p, if any.
fn index_of_plane(v: &Vec<Plane>, p: &Plane) -> (r: Option<usize>)
    ensures
        r is Some ==> 0 <= r->0 < v@.len() && plane_perm_eq(v@[r->0 as int]@, p@) && (forall|m: int|
            0 <= m < r->0 ==> !plane_perm_eq(v@[m]@, p@)),
        r is None ==> forall|m: int| 0 <= m < v@.len() ==> !plane_perm_eq(v@[m]@, p@),
{
    let mut i: usize = 0;
    while i < v.len()
        invariant
            0 <= i <= v@.len(),
            forall|m: int| 0 <= m < i ==> !plane_perm_eq(v@[m]@, p@),
        decreases v@.len() - i,
    {
        if plane_eq(&v[i], p) {
            return Some(i);
        }
        i = i + 1;
    }
    None
}

/// The four faces are the fixed-orientation tetrahedron over the first
/// valid quadruple (i, j, k, l) of the scan: faces (j,i,k), (i,j,l),
/// (k,i,l), (j,k,l) in that order, each vertex by its coordinates.
pub open spec fn simplex_of_first_quad(ps: Seq<Plane>, pts: Seq<Point>) -> bool {
    &&& ps.len() == 4
    &&& exists|i: int, j: int, k: int, l: int|
        {
            &&& is_first_good_quad(pts, i, j, k, l)
            &&& ps[0]@.a == pts[j]@ && ps[0]@.b == pts[i]@ && ps[0]@.c == pts[k]@
            &&& ps[1]@.a == pts[i]@ && ps[1]@.b == pts[j]@ && ps[1]@.c == pts[l]@
            &&& ps[2]@.a == pts[k]@ && ps[2]@.b == pts[i]@ && ps[2]@.c == pts[l]@
            &&& ps[3]@.a == pts[j]@ && ps[3]@.b == pts[k]@ && ps[3]@.c == pts[l]@
        }
}

pub struct ConvexHull {
    pub points: Vec<Point>,
    pub edges: Vec<Edge>,
    pub planes: Vec<Plane>,
}

impl ConvexHull {
    pub fn new(points: Vec<Point>) -> (h: ConvexHull)
        ensures
            h.points == points,
            h.edges@.len() == 0,
            h.planes@.len() == 0,
    {
        ConvexHull { points, edges: Vec::new(), planes: Vec::new() }
    }

    /// Read access to the input points.
    pub fn iter(&self) -> (r: &Vec<Point>)
        ensures
            r == &self.points,
    {
        &self.points
    }

    /// Seed the working set with the four faces of an initial tetrahedron,
    /// built from the first valid quadruple in scan order.
    fn init_simplex(&mut self) -> (r: Result<(), HullError>)
        requires
            all_in_bounds(old(self).points@),
            old(self).planes@.len() == 0,
        ensures
            final(self).points == old(self).points,
            final(self).edges == old(self).edges,
            r is Err ==> *final(self) == *old(self),
            r is Ok <==> (old(self).points@.len() >= 4 && exists_good_quad(old(self).points@)),
            (r == Err::<(), HullError>(HullError::TooFewPoints)) <==> old(self).points@.len() < 4,
            (r == Err::<(), HullError>(HullError::DegenerateInput)) <==> (old(self).points@.len()
                >= 4 && !exists_good_quad(old(self).points@)),
            r is Ok ==> final(self).planes@.len() == 4 && all_planes_ok(
                final(self).planes@,
                final(self).points@,
            ),
            r is Ok ==> simplex_of_first_quad(final(self).planes@, old(self).points@),
    {
        let found = find_non_collinear_points(&self.points);
        let points = match found {
            Ok(p) => p,
            Err(e) => {
                return Err(e);
            },
        };

        let plane1 = Plane::new(points[1].clone(), points[0].clone(), points[2].clone());
        let plane2 = Plane::new(points[0].clone(), points[1].clone(), points[3].clone());
        let plane3 = Plane::new(points[2].clone(), points[0].clone(), points[3].clone());
        let plane4 = Plane::new(points[1].clone(), points[2].clone(), points[3].clone());

        self.planes.push(plane1);
        self.planes.push(plane2);
        self.planes.push(plane3);
        self.planes.push(plane4);
        proof {
            let (i, j, k, l) = choose|i: int, j: int, k: int, l: int|
                {
                    &&& is_first_good_quad(self.points@, i, j, k, l)
                    &&& points@[0]@ == self.points@[i]@
                    &&& points@[1]@ == self.points@[j]@
                    &&& points@[2]@ == self.points@[k]@
                    &&& points@[3]@ == self.points@[l]@
                };
            lemma_collinear_of_repeat(self.points@[i]@, self.points@[j]@, self.points@[k]@);
            lemma_vertices_on_plane(self.points@[i]@, self.points@[j]@, self.points@[k]@);
            assert(self.planes@[0]@.a == self.points@[j]@ && self.planes@[0]@.b
                == self.points@[i]@ && self.planes@[0]@.c == self.points@[k]@);
            assert(self.planes@[1]@.a == self.points@[i]@ && self.planes@[1]@.b
                == self.points@[j]@ && self.planes@[1]@.c == self.points@[l]@);
            assert(self.planes@[2]@.a == self.points@[k]@ && self.planes@[2]@.b
                == self.points@[i]@ && self.planes@[2]@.c == self.points@[l]@);
            assert(self.planes@[3]@.a == self.points@[j]@ && self.planes@[3]@.b
                == self.points@[k]@ && self.planes@[3]@.c == self.points@[l]@);
            assert(simplex_of_first_quad(self.planes@, self.points@));
        }
        Ok(())
    }

    /// QuickHull refinement: pop an open face; if no input point is above
    /// it, finalize it; otherwise replace every face the farthest outside
    /// point sees with new faces joining it to the horizon edges.  On
    /// success the finalized faces contain every input point.
    pub fn quick_hull(&mut self) -> (r: Result<(), HullError>)
        requires
            all_in_bounds(old(self).points@),
            old(self).planes@.len() == 0,
        ensures
            final(self).points == old(self).points,
            final(self).edges == old(self).edges,
            (r == Err::<(), HullError>(HullError::TooFewPoints) || r == Err::<(), HullError>(
                HullError::DegenerateInput,
            )) ==> *final(self) == *old(self),
            (r == Err::<(), HullError>(HullError::TooFewPoints)) <==> old(self).points@.len() < 4,
            (r == Err::<(), HullError>(HullError::DegenerateInput)) <==> (old(self).points@.len()
                >= 4 && !exists_good_quad(old(self).points@)),
            r == Err::<(), HullError>(HullError::Incomplete) ==> old(self).points@.len() >= 4
                && exists_good_quad(old(self).points@) && final(self).planes@.len() == 0,
            r is Ok ==> final(self).planes@.len() >= 4,
            watertight(final(self).planes@),
            hull_closed(final(self).planes@, final(self).points@),
            all_planes_ok(final(self).planes@, final(self).points@),
    {
        match self.init_simplex() {
            Ok(()) => {},
            Err(e) => {
                return Err(e);
            },
        }

        let mut hull: Vec<Plane> = Vec::new();
        // Defensive cap on refinement iterations; no terminating run can
        // come near it, and it makes the loop's progress measurable.
        let mut fuel: u64 = u64::MAX;

        loop
            invariant
                self.points == old(self).points,
                self.edges == old(self).edges,
                all_in_bounds(self.points@),
                all_planes_ok(self.planes@, self.points@),
                all_planes_ok(hull@, self.points@),
                hull_closed(hull@, self.points@),
                old(self).points@.len() >= 4 && exists_good_quad(old(self).points@),
            decreases fuel,
        {
            if self.planes.is_empty() {
                break;
            }
            if fuel == 0 {
                self.planes.clear();
                return Err(HullError::Incomplete);
            }
            fuel = fuel - 1;
            let plane = self.planes.pop().unwrap();
            proof {
                assert(plane_ok(plane, self.points@));
            }

            // the outside set of the popped face
            let mut os: Vec<Point> = Vec::new();
            let mut pi: usize = 0;
            while pi < self.points.len()
                invariant
                    0 <= pi <= self.points@.len(),
                    all_in_bounds(self.points@),
                    plane_ok(plane, self.points@),
                    forall|m: int|
                        0 <= m < os@.len() ==> in_bounds(#[trigger] os@[m]@) && pt_from(
                            os@[m]@,
                            self.points@,
                        ) && is_above(plane.point_a@, plane.point_b@, plane.point_c@, os@[m]@),
                    os@.len() == 0 ==> forall|j: int|
                        0 <= j < pi ==> !is_above(
                            plane.point_a@,
                            plane.point_b@,
                            plane.point_c@,
                            #[trigger] self.points@[j]@,
                        ),
                decreases self.points@.len() - pi,
            {
                if point_above_plane(&plane, &self.points[pi]) {
                    os.push(self.points[pi].clone());
                }
                pi = pi + 1;
            }

            proof {
                lemma_normal_bound(plane.point_a@, plane.point_b@, plane.point_c@);
            }
            let farthest = farthest_point_from_plane(&plane, os.as_slice());

            let farthest_point = match farthest {
                Some(p) => p,
                None => {
                    // no point strictly above and none at positive distance:
                    // the face is final
                    proof {
                        if os@.len() > 0 {
                            assert(is_above(
                                plane.point_a@,
                                plane.point_b@,
                                plane.point_c@,
                                os@[0]@,
                            ));
                            assert(plane_dot(plane, os@[0]@) == 0);
                            assert(false);
                        }
                    }
                    hull.push(plane);
                    continue;
                },
            };
            proof {
                assert(in_bounds(farthest_point@) && pt_from(farthest_point@, self.points@));
                assert(is_above(plane.point_a@, plane.point_b@, plane.point_c@, farthest_point@));
            }

            // every open face the farthest point is above, the popped face first
            let mut planes_under_it: Vec<Plane> = Vec::new();
            planes_under_it.push(plane);
            let mut qi: usize = 0;
            while qi < self.planes.len()
                invariant
                    0 <= qi <= self.planes@.len(),
                    all_in_bounds(self.points@),
                    in_bounds(farthest_point@),
                    pt_from(farthest_point@, self.points@),
                    all_planes_ok(self.planes@, self.points@),
                    all_planes_ok(planes_under_it@, self.points@),
                    forall|m: int|
                        0 <= m < planes_under_it@.len() ==> is_above(
                            (#[trigger] planes_under_it@[m]).point_a@,
                            planes_under_it@[m].point_b@,
                            planes_under_it@[m].point_c@,
                            farthest_point@,
                        ),
                decreases self.planes@.len() - qi,
            {
                if point_above_plane(&self.planes[qi], &farthest_point) {
                    planes_under_it.push(self.planes[qi].clone());
                }
                qi = qi + 1;
            }

            // all boundary edges of the visible faces
            let mut edges: Vec<Edge> = Vec::new();
            let mut ei: usize = 0;
            while ei < planes_under_it.len()
                invariant
                    0 <= ei <= planes_under_it@.len(),
                    all_planes_ok(planes_under_it@, self.points@),
                    forall|m: int|
                        0 <= m < planes_under_it@.len() ==> is_above(
                            (#[trigger] planes_under_it@[m]).point_a@,
                            planes_under_it@[m].point_b@,
                            planes_under_it@[m].point_c@,
                            farthest_point@,
                        ),
                    all_edges_ok(edges@, self.points@),
                    forall|m: int|
                        0 <= m < edges@.len() ==> (#[trigger] edges@[m])@.start != farthest_point@
                            && edges@[m]@.end != farthest_point@,
                decreases planes_under_it@.len() - ei,
            {
                let mut es = planes_under_it[ei].get_edges();
                proof {
                    let visible = planes_under_it@[ei as int];
                    assert(plane_ok(visible, self.points@));
                    // the farthest point is strictly above this face, so it
                    // is none of the face's vertices
                    lemma_vertices_on_plane(visible.point_a@, visible.point_b@, visible.point_c@);
                    assert(all_edges_ok(es@, self.points@));
                    assert(forall|m: int|
                        0 <= m < es@.len() ==> (#[trigger] es@[m])@.start != farthest_point@
                            && es@[m]@.end != farthest_point@);
                }
                edges.append(&mut es);
                ei = ei + 1;
            }

            // cancel edges shared by two visible faces; what remains is the
            // horizon loop
            let mut unique_edges: Vec<Edge> = Vec::new();
            let mut ui: usize = 0;
            while ui < edges.len()
                invariant
                    0 <= ui <= edges@.len(),
                    all_edges_ok(edges@, self.points@),
                    all_edges_ok(unique_edges@, self.points@),
                    forall|m: int|
                        0 <= m < edges@.len() ==> (#[trigger] edges@[m])@.start != farthest_point@
                            && edges@[m]@.end != farthest_point@,
                    forall|m: int|
                        0 <= m < unique_edges@.len() ==> (#[trigger] unique_edges@[m])@.start
                            != farthest_point@ && unique_edges@[m]@.end != farthest_point@,
                decreases edges@.len() - ui,
            {
                match index_of_edge(&unique_edges, &edges[ui]) {
                    None => {
                        unique_edges.push(edges[ui].clone());
                    },
                    Some(pos) => {
                        unique_edges.remove(pos);
                    },
                }
                ui = ui + 1;
            }

            // a new face from each horizon edge to the farthest point
            let mut planes_to_add: Vec<Plane> = Vec::new();
            let mut ni: usize = 0;
            while ni < unique_edges.len()
                invariant
                    0 <= ni <= unique_edges@.len(),
                    all_in_bounds(self.points@),
                    in_bounds(farthest_point@),
                    pt_from(farthest_point@, self.points@),
                    all_edges_ok(unique_edges@, self.points@),
                    forall|m: int|
                        0 <= m < unique_edges@.len() ==> (#[trigger] unique_edges@[m])@.start
                            != farthest_point@ && unique_edges@[m]@.end != farthest_point@,
                    all_planes_ok(planes_to_add@, self.points@),
                decreases unique_edges@.len() - ni,
            {
                let a = unique_edges[ni].start.clone();
                let b = unique_edges[ni].end.clone();
                let c = farthest_point.clone();
                proof {
                    assert(edge_ok(unique_edges@[ni as int], self.points@));
                }
                let new_plane = Plane::new(a, b, c);
                planes_to_add.push(new_plane);
                ni = ni + 1;
            }

            let mut ai: usize = 0;
            while ai < planes_to_add.len()
                invariant
                    0 <= ai <= planes_to_add@.len(),
                    self.points == old(self).points,
                    self.edges == old(self).edges,
                    all_in_bounds(self.points@),
                    all_planes_ok(planes_to_add@, self.points@),
                    all_planes_ok(self.planes@, self.points@),
                decreases planes_to_add@.len() - ai,
            {
                self.planes.push(planes_to_add[ai].clone());
                ai = ai + 1;
            }

            // the visible faces are superseded: drop them from the open set
            let mut ri: usize = 0;
            while ri < planes_under_it.len()
                invariant
                    0 <= ri <= planes_under_it@.len(),
                    self.points == old(self).points,
                    self.edges == old(self).edges,
                    all_in_bounds(self.points@),
                    all_planes_ok(planes_under_it@, self.points@),
                    all_planes_ok(self.planes@, self.points@),
                decreases planes_under_it@.len() - ri,
            {
                match index_of_plane(&self.planes, &planes_under_it[ri]) {
                    Some(pos) => {
                        self.planes.remove(pos);
                    },
                    None => {},
                }
                ri = ri + 1;
            }
        }

        // a hull must be a closed surface of at least four faces; never
        // hand back anything less
        if hull.len() < 4 {
            self.planes.clear();
            return Err(HullError::Incomplete);
        }
        if !is_watertight(&hull) {
            self.planes.clear();
            return Err(HullError::Incomplete);
        }
        self.planes = hull;
        Ok(())
    }
}

} // verus!
