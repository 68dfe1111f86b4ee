//! Mathematical model of 3-D integer vectors: the spec-level arithmetic that
//! every geometric contract in this crate is stated over, together with the
//! coordinate bounds that keep the executable arithmetic free of overflow.
use vstd::prelude::*;

verus! {

/// A coordinate triple as unbounded integers: the view of every executable
/// point and vector in the crate.
#[verifier::ext_equal]
pub struct V3 {
    pub x: int,
    pub y: int,
    pub z: int,
}

pub open spec fn zero3() -> V3 {
    V3 { x: 0, y: 0, z: 0 }
}

pub open spec fn sub3(a: V3, b: V3) -> V3 {
    V3 { x: a.x - b.x, y: a.y - b.y, z: a.z - b.z }
}

pub open spec fn cross3(a: V3, b: V3) -> V3 {
    V3 {
        x: a.y * b.z - a.z * b.y,
        y: a.z * b.x - a.x * b.z,
        z: a.x * b.y - a.y * b.x,
    }
}

pub open spec fn dot3(a: V3, b: V3) -> int {
    a.x * b.x + a.y * b.y + a.z * b.z
}

/// Squared euclidean magnitude; never a square root, so it stays an integer.
pub open spec fn norm2(a: V3) -> int {
    a.x * a.x + a.y * a.y + a.z * a.z
}

pub open spec fn abs1(x: int) -> int {
    if x < 0 {
        -x
    } else {
        x
    }
}

/// The (unnormalized) outward normal of the oriented triangle (a, b, c).
pub open spec fn normal_of(a: V3, b: V3, c: V3) -> V3 {
    cross3(sub3(b, a), sub3(c, a))
}

/// Three points on one line: their triangle has a zero normal.
pub open spec fn is_collinear(a: V3, b: V3, c: V3) -> bool {
    normal_of(a, b, c) == zero3()
}

/// Signed orientation of d against the plane through (a, b, c):
/// positive above, zero on the plane, negative below.
pub open spec fn orient(a: V3, b: V3, c: V3, d: V3) -> int {
    dot3(normal_of(a, b, c), sub3(d, a))
}

/// d lies strictly on the outward side of the oriented triangle (a, b, c).
pub open spec fn is_above(a: V3, b: V3, c: V3, d: V3) -> bool {
    orient(a, b, c, d) > 0
}

/// The signed coplanarity classification: d counts as "coplanar" with
/// (a, b, c) unless its orientation is strictly positive.  The test is
/// deliberately one-sided, matching the signed epsilon comparison it models.
pub open spec fn coplanar_test(a: V3, b: V3, c: V3, d: V3) -> bool {
    orient(a, b, c, d) <= 0
}

/// Largest coordinate magnitude the geometric routines accept; with it, every
/// intermediate product in this crate fits comfortably in 64 bits.
pub const MAX_COORD: i32 = 10_000;

/// Bound on each entry of a triangle normal built from in-bound points:
/// 2 * (2 * MAX_COORD)^2.
pub const NORMAL_BOUND: i32 = 800_000_000;

/// Bound on the orientation value of four in-bound points:
/// 3 * NORMAL_BOUND * (2 * MAX_COORD).
pub const ORIENT_BOUND: i64 = 48_000_000_000_000;

pub open spec fn in_bounds(p: V3) -> bool {
    &&& -(MAX_COORD as int) <= p.x <= MAX_COORD as int
    &&& -(MAX_COORD as int) <= p.y <= MAX_COORD as int
    &&& -(MAX_COORD as int) <= p.z <= MAX_COORD as int
}

pub open spec fn normal_in_bounds(v: V3) -> bool {
    &&& -(NORMAL_BOUND as int) <= v.x <= NORMAL_BOUND as int
    &&& -(NORMAL_BOUND as int) <= v.y <= NORMAL_BOUND as int
    &&& -(NORMAL_BOUND as int) <= v.z <= NORMAL_BOUND as int
}

/// The normal of a triangle of in-bound points fits well inside 32 bits.
pub proof fn lemma_normal_bound(a: V3, b: V3, c: V3)
    requires
        in_bounds(a),
        in_bounds(b),
        in_bounds(c),
    ensures
        normal_in_bounds(normal_of(a, b, c)),
{
    let u = sub3(b, a);
    let v = sub3(c, a);
    assert(-20000 <= u.x <= 20000 && -20000 <= u.y <= 20000 && -20000 <= u.z <= 20000);
    assert(-20000 <= v.x <= 20000 && -20000 <= v.y <= 20000 && -20000 <= v.z <= 20000);
    lemma_cross_entry_bound(u.y, v.z, u.z, v.y);
    lemma_cross_entry_bound(u.z, v.x, u.x, v.z);
    lemma_cross_entry_bound(u.x, v.y, u.y, v.x);
}

proof fn lemma_cross_entry_bound(p: int, q: int, r: int, s: int)
    requires
        -20000 <= p <= 20000,
        -20000 <= q <= 20000,
        -20000 <= r <= 20000,
        -20000 <= s <= 20000,
    ensures
        -800_000_000 <= p * q - r * s <= 800_000_000,
{
    lemma_mul_bound(p, q, 20000);
    lemma_mul_bound(r, s, 20000);
}

/// |x * y| <= m * m when |x| <= m and |y| <= m.
pub proof fn lemma_mul_bound(x: int, y: int, m: int)
    by (nonlinear_arith)
    requires
        0 <= m,
        -m <= x <= m,
        -m <= y <= m,
    ensures
        -(m * m) <= x * y <= m * m,
{
}

/// The plane equation of an in-bound base point and a bounded normal,
/// evaluated at an in-bound point, is bounded.
pub proof fn lemma_plane_dot_bound(n: V3, p: V3, a: V3)
    requires
        normal_in_bounds(n),
        in_bounds(p),
        in_bounds(a),
    ensures
        -(ORIENT_BOUND as int) <= dot3(n, sub3(p, a)) <= ORIENT_BOUND as int,
{
    let d = sub3(p, a);
    assert(-20000 <= d.x <= 20000 && -20000 <= d.y <= 20000 && -20000 <= d.z <= 20000);
    lemma_mul_bound_asym(n.x, d.x, 800_000_000, 20000);
    lemma_mul_bound_asym(n.y, d.y, 800_000_000, 20000);
    lemma_mul_bound_asym(n.z, d.z, 800_000_000, 20000);
}

/// The squared magnitude of a bounded normal fits in 64 bits.
pub proof fn lemma_norm2_normal_bound(v: V3)
    requires
        normal_in_bounds(v),
    ensures
        0 <= norm2(v) <= 1_920_000_000_000_000_000,
{
    lemma_norm2_zero(v);
    lemma_mul_bound(v.x, v.x, 800_000_000);
    lemma_mul_bound(v.y, v.y, 800_000_000);
    lemma_mul_bound(v.z, v.z, 800_000_000);
}

proof fn lemma_mul_bound_asym(x: int, y: int, mx: int, my: int)
    by (nonlinear_arith)
    requires
        0 <= mx,
        0 <= my,
        -mx <= x <= mx,
        -my <= y <= my,
    ensures
        -(mx * my) <= x * y <= mx * my,
{
}

/// A triangle with a repeated vertex is collinear: its normal is zero.  So
/// a non-collinear triangle has three pairwise distinct vertices.
pub proof fn lemma_collinear_of_repeat(a: V3, b: V3, c: V3)
    ensures
        a == b || b == c || a == c ==> is_collinear(a, b, c),
{
    if a == b {
        assert(normal_of(a, b, c) =~= zero3());
    }
    if b == c {
        lemma_cross_self(sub3(b, a));
        assert(normal_of(a, b, c) == cross3(sub3(b, a), sub3(b, a)));
    }
    if a == c {
        assert(normal_of(a, b, c) =~= zero3());
    }
}

proof fn lemma_cross_self(u: V3)
    ensures
        cross3(u, u) == zero3(),
{
    assert(u.y * u.z - u.z * u.y == 0) by (nonlinear_arith);
    assert(u.z * u.x - u.x * u.z == 0) by (nonlinear_arith);
    assert(u.x * u.y - u.y * u.x == 0) by (nonlinear_arith);
    assert(cross3(u, u) =~= zero3());
}

/// A triangle's own vertices have orientation zero against it: a point
/// strictly above the triangle is none of its vertices.
pub proof fn lemma_vertices_on_plane(a: V3, b: V3, c: V3)
    ensures
        orient(a, b, c, a) == 0,
        orient(a, b, c, b) == 0,
        orient(a, b, c, c) == 0,
{
    lemma_triple_repeat(sub3(b, a), sub3(c, a));
    assert(orient(a, b, c, a) == dot3(normal_of(a, b, c), sub3(a, a)));
    assert(orient(a, b, c, b) == dot3(cross3(sub3(b, a), sub3(c, a)), sub3(b, a)));
    assert(orient(a, b, c, c) == dot3(cross3(sub3(b, a), sub3(c, a)), sub3(c, a)));
}

proof fn lemma_triple_repeat(u: V3, v: V3)
    by (nonlinear_arith)
    ensures
        dot3(cross3(u, v), u) == 0,
        dot3(cross3(u, v), v) == 0,
{
}

/// A vector is zero exactly when its squared magnitude is zero.
pub proof fn lemma_norm2_zero(v: V3)
    ensures
        norm2(v) >= 0,
        norm2(v) == 0 <==> v == zero3(),
{
    lemma_sum_squares_zero(v.x, v.y, v.z);
    if v.x == 0 && v.y == 0 && v.z == 0 {
        assert(v =~= zero3());
    }
}

proof fn lemma_sum_squares_zero(x: int, y: int, z: int)
    by (nonlinear_arith)
    ensures
        x * x + y * y + z * z >= 0,
        (x * x + y * y + z * z == 0) <==> (x == 0 && y == 0 && z == 0),
{
}

} // verus!
