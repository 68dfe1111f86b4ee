//! Edges: ordered pairs of points compared symmetrically, so that the two
//! directions of one boundary segment count as the same edge.
use vstd::prelude::*;
use crate::point::{payload_eq, point_eq, Point};
use crate::vec3::V3;

verus! {

pub struct Edge {
    pub start: Point,
    pub end: Point,
}

/// An edge viewed as the coordinate pair of its two endpoints.
#[verifier::ext_equal]
pub struct EdgeV {
    pub start: V3,
    pub end: V3,
}

impl View for Edge {
    type V = EdgeV;

    open spec fn view(&self) -> EdgeV {
        EdgeV { start: self.start@, end: self.end@ }
    }
}

/// Symmetric equality on edge views: endpoints may be swapped.
pub open spec fn edge_sym_eq(a: EdgeV, b: EdgeV) -> bool {
    ||| (a.start == b.start && a.end == b.end)
    ||| (a.start == b.end && a.end == b.start)
}

impl Edge {
    pub fn new(start: Point, end: Point) -> (e: Edge)
        ensures
            e.start == start,
            e.end == end,
    {
        Edge { start, end }
    }
}

impl Clone for Edge {
    fn clone(&self) -> (e: Edge)
        ensures
            e@ == self@,
            payload_eq(self.start.data, e.start.data),
            payload_eq(self.end.data, e.end.data),
    {
        let e = Edge { start: self.start.clone(), end: self.end.clone() };
        proof {
            assert(e@ =~= self@);
        }
        e
    }
}

/// Edge equality: equal endpoints in either order.
pub fn edge_eq(a: &Edge, b: &Edge) -> (r: bool)
    ensures
        r == edge_sym_eq(a@, b@),
{
    (point_eq(&a.start, &b.start) && point_eq(&a.end, &b.end)) || (point_eq(&a.start, &b.end)
        && point_eq(&a.end, &b.start))
}

} // verus!
