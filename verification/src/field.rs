//! The scalar-field interface and the finite-difference estimate.

use vstd::prelude::*;
use crate::scalar::Scalar;
use crate::geometry::{Point, Vector};
use crate::arithmetic::{is_difference, is_normalized, is_offset, Arithmetic, Axis};

verus! {

/// A scalar field with a surface normal, evaluated with the arithmetic
/// `K`.
pub trait ImplicitFunction<K: Arithmetic> {
    /// Whether `out` is a value that the field may take at `p`.
    spec fn has_value(&self, k: &K, p: Point, out: Scalar) -> bool;

    /// Whether `out` is a normal that the field may have at `p`.
    spec fn has_normal(&self, k: &K, p: Point, out: Vector) -> bool;

    /// Signed distance at `p`.
    fn value(&self, p: &Point, k: &K) -> (out: Scalar)
        ensures
            self.has_value(k, *p, out),
    ;

    /// Unit normal at `p`.
    fn normal(&self, p: &Point, k: &K) -> (out: Vector)
        ensures
            self.has_normal(k, *p, out),
    ;
}

/// Whether `out` is a forward difference of `field` at `p` along
/// `axis`, against the value `center` at `p` itself.
pub open spec fn is_slope<K: Arithmetic>(
    field: spec_fn(Point, Scalar) -> bool,
    k: &K,
    p: Point,
    axis: Axis,
    center: Scalar,
    out: Scalar,
) -> bool {
    exists|q: Point, v: Scalar|
        #![trigger is_offset(k, p, axis, q), is_difference(k, v, center, out)]
        is_offset(k, p, axis, q) && field(q, v) && is_difference(k, v, center, out)
}

/// Whether `out` is a normal that forward differences of `field` at `p`
/// may give: the normalized vector of the slopes along the three axes.
pub open spec fn is_estimate<K: Arithmetic>(
    field: spec_fn(Point, Scalar) -> bool,
    k: &K,
    p: Point,
    out: Vector,
) -> bool {
    exists|center: Scalar, g: Vector|
        #![trigger is_slope(field, k, p, Axis::X, center, g.x), is_normalized(k, g, out)]
        field(p, center) && is_slope(field, k, p, Axis::X, center, g.x) && is_slope(
            field,
            k,
            p,
            Axis::Y,
            center,
            g.y,
        ) && is_slope(field, k, p, Axis::Z, center, g.z) && is_normalized(k, g, out)
}

/// An estimate over one field is an estimate over every field that
/// admits the same values.
pub proof fn lemma_estimate_widens<K: Arithmetic>(
    narrow: spec_fn(Point, Scalar) -> bool,
    wide: spec_fn(Point, Scalar) -> bool,
    k: &K,
    p: Point,
    out: Vector,
)
    requires
        forall|q: Point, v: Scalar| #[trigger] narrow(q, v) ==> wide(q, v),
        is_estimate(narrow, k, p, out),
    ensures
        is_estimate(wide, k, p, out),
{
    let (center, g) = choose|center: Scalar, g: Vector|
        #![trigger is_slope(narrow, k, p, Axis::X, center, g.x), is_normalized(k, g, out)]
        narrow(p, center) && is_slope(narrow, k, p, Axis::X, center, g.x) && is_slope(
            narrow,
            k,
            p,
            Axis::Y,
            center,
            g.y,
        ) && is_slope(narrow, k, p, Axis::Z, center, g.z) && is_normalized(k, g, out);
    lemma_slope_widens(narrow, wide, k, p, Axis::X, center, g.x);
    lemma_slope_widens(narrow, wide, k, p, Axis::Y, center, g.y);
    lemma_slope_widens(narrow, wide, k, p, Axis::Z, center, g.z);
    assert(is_slope(wide, k, p, Axis::X, center, g.x) && is_normalized(k, g, out));
}

/// A slope over one field is a slope over every field that admits the
/// same values.
pub proof fn lemma_slope_widens<K: Arithmetic>(
    narrow: spec_fn(Point, Scalar) -> bool,
    wide: spec_fn(Point, Scalar) -> bool,
    k: &K,
    p: Point,
    axis: Axis,
    center: Scalar,
    out: Scalar,
)
    requires
        forall|q: Point, v: Scalar| #[trigger] narrow(q, v) ==> wide(q, v),
        is_slope(narrow, k, p, axis, center, out),
    ensures
        is_slope(wide, k, p, axis, center, out),
{
    let (q, v) = choose|q: Point, v: Scalar|
        #![trigger is_offset(k, p, axis, q), is_difference(k, v, center, out)]
        is_offset(k, p, axis, q) && narrow(q, v) && is_difference(k, v, center, out);
    assert(is_offset(k, p, axis, q) && wide(q, v) && is_difference(k, v, center, out));
}

/// Normal at `p` from values of a field alone: `sample` is asked at `p`
/// and at its three displaced neighbours.
pub fn estimate_normal<F: Fn(&Point) -> Scalar, K: Arithmetic>(sample: &F, p: &Point, k: &K) -> (out: Vector)
    requires
        forall|q: Point| call_requires(*sample, (&q,)),
    ensures
        is_estimate(|q: Point, v: Scalar| call_ensures(*sample, (&q,), v), k, *p, out),
{
    let ghost field = |q: Point, v: Scalar| call_ensures(*sample, (&q,), v);
    let center = sample(p);
    let px = k.offset(*p, Axis::X);
    let vx = sample(&px);
    let dx = k.difference(vx, center);
    assert(is_offset(k, *p, Axis::X, px) && field(px, vx) && is_difference(k, vx, center, dx));
    let py = k.offset(*p, Axis::Y);
    let vy = sample(&py);
    let dy = k.difference(vy, center);
    assert(is_offset(k, *p, Axis::Y, py) && field(py, vy) && is_difference(k, vy, center, dy));
    let pz = k.offset(*p, Axis::Z);
    let vz = sample(&pz);
    let dz = k.difference(vz, center);
    assert(is_offset(k, *p, Axis::Z, pz) && field(pz, vz) && is_difference(k, vz, center, dz));
    let g = Vector::new(dx, dy, dz);
    let out = k.normalize(g);
    assert(field(*p, center) && is_slope(field, k, *p, Axis::X, center, g.x) && is_normalized(k, g, out));
    out
}

/// Normal of `f` at `p` from the field alone: the normalized vector of
/// its forward differences along the three axes.
pub fn normal_from_implicit<K: Arithmetic, T: ImplicitFunction<K>>(f: &T, p: &Point, k: &K) -> (out: Vector)
    ensures
        is_estimate(|q: Point, v: Scalar| f.has_value(k, q, v), k, *p, out),
{
    let sample = |q: &Point| -> (v: Scalar)
        ensures
            f.has_value(k, *q, v),
        { f.value(q, k) };
    let out = estimate_normal(&sample, p, k);
    proof {
        lemma_estimate_widens(
            |q: Point, v: Scalar| call_ensures(sample, (&q,), v),
            |q: Point, v: Scalar| f.has_value(k, q, v),
            k,
            *p,
            out,
        );
    }
    out
}

} // verus!
