//! Faces: oriented triangles with a stored normal and their three boundary
//! edges.  Equality is invariant under any relabeling of the vertices.
use vstd::prelude::*;
use crate::edge::{Edge, EdgeV};
use crate::functions::{cross_product, subtract_vectors};
use crate::point::{payload_eq, point_eq, Point};
use crate::vec3::{in_bounds, lemma_normal_bound, normal_of, V3};

verus! {

pub struct Plane {
    pub point_a: Point,
    pub point_b: Point,
    pub point_c: Point,
    /// Normal vector, computed once from the three vertices.
    pub normal: Point,
    pub edge_a: Edge,
    pub edge_b: Edge,
    pub edge_c: Edge,
}

/// A face viewed as the coordinates of its vertices and stored normal.
#[verifier::ext_equal]
pub struct PlaneV {
    pub a: V3,
    pub b: V3,
    pub c: V3,
    pub normal: V3,
}

impl View for Plane {
    type V = PlaneV;

    open spec fn view(&self) -> PlaneV {
        PlaneV {
            a: self.point_a@,
            b: self.point_b@,
            c: self.point_c@,
            normal: self.normal@,
        }
    }
}

/// Permutation-invariant equality on face views: the same vertex set in any
/// of the six orders is the same face.  Normals and edges are not compared.
pub open spec fn plane_perm_eq(p: PlaneV, q: PlaneV) -> bool {
    ||| (p.a == q.a && p.b == q.b && p.c == q.c)
    ||| (p.a == q.a && p.b == q.c && p.c == q.b)
    ||| (p.a == q.b && p.b == q.a && p.c == q.c)
    ||| (p.a == q.b && p.b == q.c && p.c == q.a)
    ||| (p.a == q.c && p.b == q.a && p.c == q.b)
    ||| (p.a == q.c && p.b == q.b && p.c == q.a)
}

impl Plane {
    /// Structural invariant: the stored normal is the cross product of the
    /// two edge vectors out of vertex a, and the three edges join the
    /// vertices in order.
    pub open spec fn wf(&self) -> bool {
        &&& self.normal@ == normal_of(self.point_a@, self.point_b@, self.point_c@)
        &&& self.edge_a@ == (EdgeV { start: self.point_a@, end: self.point_b@ })
        &&& self.edge_b@ == (EdgeV { start: self.point_b@, end: self.point_c@ })
        &&& self.edge_c@ == (EdgeV { start: self.point_c@, end: self.point_a@ })
    }

    /// The three vertices are pairwise distinct by coordinates: the face is
    /// a real triangle, not a degenerate one.
    pub open spec fn distinct_vertices(&self) -> bool {
        &&& self.point_a@ != self.point_b@
        &&& self.point_b@ != self.point_c@
        &&& self.point_a@ != self.point_c@
    }

    /// All three vertices lie within the coordinate range the arithmetic
    /// contracts ask for.
    pub open spec fn bounded(&self) -> bool {
        &&& in_bounds(self.point_a@)
        &&& in_bounds(self.point_b@)
        &&& in_bounds(self.point_c@)
    }

    pub fn new(point_a: Point, point_b: Point, point_c: Point) -> (p: Plane)
        requires
            in_bounds(point_a@),
            in_bounds(point_b@),
            in_bounds(point_c@),
        ensures
            p.wf(),
            p.bounded(),
            p.point_a == point_a,
            p.point_b == point_b,
            p.point_c == point_c,
            p.normal.data is None,
            payload_eq(p.edge_a.start.data, point_a.data),
            payload_eq(p.edge_a.end.data, point_b.data),
            payload_eq(p.edge_b.start.data, point_b.data),
            payload_eq(p.edge_b.end.data, point_c.data),
            payload_eq(p.edge_c.start.data, point_c.data),
            payload_eq(p.edge_c.end.data, point_a.data),
    {
        let edge_a = Edge::new(point_a.clone(), point_b.clone());
        let edge_b = Edge::new(point_b.clone(), point_c.clone());
        let edge_c = Edge::new(point_c.clone(), point_a.clone());

        let mut plane = Plane {
            point_a,
            point_b,
            point_c,
            normal: Point::new(None, 0, 0, 0),
            edge_a,
            edge_b,
            edge_c,
        };
        plane.calculate_normal();
        plane
    }

    pub fn calculate_normal(&mut self)
        requires
            in_bounds(old(self).point_a@),
            in_bounds(old(self).point_b@),
            in_bounds(old(self).point_c@),
        ensures
            final(self).normal@ == normal_of(
                old(self).point_a@,
                old(self).point_b@,
                old(self).point_c@,
            ),
            final(self).normal.data is None,
            final(self).point_a == old(self).point_a,
            final(self).point_b == old(self).point_b,
            final(self).point_c == old(self).point_c,
            final(self).edge_a == old(self).edge_a,
            final(self).edge_b == old(self).edge_b,
            final(self).edge_c == old(self).edge_c,
    {
        proof {
            lemma_normal_bound(self.point_a@, self.point_b@, self.point_c@);
        }
        let vector1 = subtract_vectors(&self.point_b, &self.point_a);
        let vector2 = subtract_vectors(&self.point_c, &self.point_a);
        self.normal = cross_product(&vector1, &vector2);
    }

    pub fn get_points(&self) -> (r: Vec<Point>)
        ensures
            r@.len() == 3,
            r@[0]@ == self.point_a@,
            r@[1]@ == self.point_b@,
            r@[2]@ == self.point_c@,
            payload_eq(self.point_a.data, r@[0].data),
            payload_eq(self.point_b.data, r@[1].data),
            payload_eq(self.point_c.data, r@[2].data),
    {
        vec![self.point_a.clone(), self.point_b.clone(), self.point_c.clone()]
    }

    pub fn get_edges(&self) -> (r: Vec<Edge>)
        ensures
            r@.len() == 3,
            r@[0]@ == self.edge_a@,
            r@[1]@ == self.edge_b@,
            r@[2]@ == self.edge_c@,
            payload_eq(self.edge_a.start.data, r@[0].start.data),
            payload_eq(self.edge_a.end.data, r@[0].end.data),
            payload_eq(self.edge_b.start.data, r@[1].start.data),
            payload_eq(self.edge_b.end.data, r@[1].end.data),
            payload_eq(self.edge_c.start.data, r@[2].start.data),
            payload_eq(self.edge_c.end.data, r@[2].end.data),
    {
        vec![self.edge_a.clone(), self.edge_b.clone(), self.edge_c.clone()]
    }
}

impl Clone for Plane {
    fn clone(&self) -> (p: Plane)
        ensures
            p@ == self@,
            p.edge_a@ == self.edge_a@,
            p.edge_b@ == self.edge_b@,
            p.edge_c@ == self.edge_c@,
            payload_eq(self.point_a.data, p.point_a.data),
            payload_eq(self.point_b.data, p.point_b.data),
            payload_eq(self.point_c.data, p.point_c.data),
            payload_eq(self.normal.data, p.normal.data),
    {
        let p = Plane {
            point_a: self.point_a.clone(),
            point_b: self.point_b.clone(),
            point_c: self.point_c.clone(),
            normal: self.normal.clone(),
            edge_a: self.edge_a.clone(),
            edge_b: self.edge_b.clone(),
            edge_c: self.edge_c.clone(),
        };
        proof {
            assert(p@ =~= self@);
        }
        p
    }
}

/// Face equality: any permutation of the three vertices, compared by
/// coordinates alone.
pub fn plane_eq(x: &Plane, y: &Plane) -> (r: bool)
    ensures
        r == plane_perm_eq(x@, y@),
{
    (point_eq(&x.point_a, &y.point_a) && point_eq(&x.point_b, &y.point_b) && point_eq(
        &x.point_c,
        &y.point_c,
    )) || (point_eq(&x.point_a, &y.point_a) && point_eq(&x.point_b, &y.point_c) && point_eq(
        &x.point_c,
        &y.point_b,
    )) || (point_eq(&x.point_a, &y.point_b) && point_eq(&x.point_b, &y.point_a) && point_eq(
        &x.point_c,
        &y.point_c,
    )) || (point_eq(&x.point_a, &y.point_b) && point_eq(&x.point_b, &y.point_c) && point_eq(
        &x.point_c,
        &y.point_a,
    )) || (point_eq(&x.point_a, &y.point_c) && point_eq(&x.point_b, &y.point_a) && point_eq(
        &x.point_c,
        &y.point_b,
    )) || (point_eq(&x.point_a, &y.point_c) && point_eq(&x.point_b, &y.point_b) && point_eq(
        &x.point_c,
        &y.point_a,
    ))
}

} // verus!
