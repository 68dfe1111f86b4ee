//! Points: integer 3-D coordinates with an optional opaque record payload.
//! Every geometric predicate reads the coordinates alone.
use vstd::prelude::*;
use crate::records::{data_eq, Data};
use crate::vec3::V3;

verus! {

/// Two optional payloads hold the same record, or none at all: the
/// traceability data survives every copy.
pub open spec fn payload_eq(a: Option<Data>, b: Option<Data>) -> bool {
    match (a, b) {
        (Option::None, Option::None) => true,
        (Option::Some(x), Option::Some(y)) => data_eq(x, y),
        _ => false,
    }
}

pub struct Point {
    pub data: Option<Data>,
    pub x: i32,
    pub y: i32,
    pub z: i32,
}

impl View for Point {
    type V = V3;

    open spec fn view(&self) -> V3 {
        V3 { x: self.x as int, y: self.y as int, z: self.z as int }
    }
}

impl Point {
    pub fn new(data: Option<Data>, x: i32, y: i32, z: i32) -> (p: Point)
        ensures
            p@ == (V3 { x: x as int, y: y as int, z: z as int }),
            p.data == data,
    {
        Point { data, x, y, z }
    }
}

impl Clone for Point {
    /// The clone carries the same coordinates and the same payload.
    fn clone(&self) -> (p: Point)
        ensures
            p@ == self@,
            payload_eq(self.data, p.data),
    {
        let data = match &self.data {
            None => None,
            Some(d) => Some(d.clone()),
        };
        Point { data, x: self.x, y: self.y, z: self.z }
    }
}

/// Point equality: coordinates only; payloads are never compared.
pub fn point_eq(a: &Point, b: &Point) -> (r: bool)
    ensures
        r == (a@ == b@),
{
    let r = a.x == b.x && a.y == b.y && a.z == b.z;
    proof {
        if r {
            assert(a@ =~= b@);
        }
    }
    r
}

} // verus!
