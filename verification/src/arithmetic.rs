//! The rounded operations on binary64 values, which this library leaves
//! to its user.

use vstd::prelude::*;
use crate::scalar::Scalar;
use crate::geometry::{Point, Vector};
use crate::transform::Step;

verus! {

/// A coordinate axis.
#[derive(Clone, Copy, Debug, PartialEq, Eq, Structural)]
pub enum Axis {
    X,
    Y,
    Z,
}

/// Rounded arithmetic. Nothing is promised of an implementation: the
/// library states its results over whatever each call returned.
pub trait Arithmetic {
    /// `a - b`.
    fn difference(&self, a: Scalar, b: Scalar) -> Scalar;

    /// `b + r * sin(pi/4 + asin((a - b) / r / sqrt(2))) - r`, the smooth
    /// minimum inside the blend band.
    fn fillet_min(&self, a: Scalar, b: Scalar, r: Scalar) -> Scalar;

    /// `b - r * sin(pi/4 - asin((a - b) / r / sqrt(2))) + r`, the smooth
    /// maximum inside the blend band.
    fn fillet_max(&self, a: Scalar, b: Scalar, r: Scalar) -> Scalar;

    /// Euclidean length of `v`.
    fn length(&self, v: Vector) -> Scalar;

    /// `v` scaled to unit length.
    fn normalize(&self, v: Vector) -> Vector;

    /// The point that `step` carries to `p`.
    fn pull_back(&self, step: Step, p: Point) -> Point;

    /// The direction that a surface normal `n` takes under `step`.
    fn push_forward(&self, step: Step, n: Vector) -> Vector;

    /// `p` displaced along `axis` by that axis's sampling distance.
    fn offset(&self, p: Point, axis: Axis) -> Point;
}

/// Whether `out` is a value that `k` gave for `a - b`.
pub open spec fn is_difference<K: Arithmetic>(k: &K, a: Scalar, b: Scalar, out: Scalar) -> bool {
    call_ensures(K::difference, (k, a, b), out)
}

/// Whether `out` is a value that `k` gave for the smooth minimum inside
/// the band.
pub open spec fn is_fillet_min<K: Arithmetic>(k: &K, a: Scalar, b: Scalar, r: Scalar, out: Scalar) -> bool {
    call_ensures(K::fillet_min, (k, a, b, r), out)
}

/// Whether `out` is a value that `k` gave for the smooth maximum inside
/// the band.
pub open spec fn is_fillet_max<K: Arithmetic>(k: &K, a: Scalar, b: Scalar, r: Scalar, out: Scalar) -> bool {
    call_ensures(K::fillet_max, (k, a, b, r), out)
}

/// Whether `out` is a value that `k` gave for the length of `v`.
pub open spec fn is_length<K: Arithmetic>(k: &K, v: Vector, out: Scalar) -> bool {
    call_ensures(K::length, (k, v), out)
}

/// Whether `out` is a vector that `k` gave for `v` at unit length.
pub open spec fn is_normalized<K: Arithmetic>(k: &K, v: Vector, out: Vector) -> bool {
    call_ensures(K::normalize, (k, v), out)
}

/// Whether `out` is a point that `k` gave for `p` before `step`.
pub open spec fn is_pull_back<K: Arithmetic>(k: &K, step: Step, p: Point, out: Point) -> bool {
    call_ensures(K::pull_back, (k, step, p), out)
}

/// Whether `out` is a direction that `k` gave for `n` after `step`.
pub open spec fn is_push_forward<K: Arithmetic>(k: &K, step: Step, n: Vector, out: Vector) -> bool {
    call_ensures(K::push_forward, (k, step, n), out)
}

/// Whether `out` is a point that `k` gave for `p` displaced along `axis`.
pub open spec fn is_offset<K: Arithmetic>(k: &K, p: Point, axis: Axis, out: Point) -> bool {
    call_ensures(K::offset, (k, p, axis), out)
}

} // verus!
