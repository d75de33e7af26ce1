//! Blend kernels: how two field values, and the normals that belong to
//! them, combine into one.

use vstd::prelude::*;
use crate::scalar::Scalar;
use crate::geometry::Vector;
use crate::arithmetic::{is_difference, is_fillet_max, is_fillet_min, Arithmetic};
use crate::object::{Bool, Object};
use crate::solid::Solid;

verus! {

/// Whether a difference of two field values lies inside the blend band
/// of radius `r`.
pub open spec fn within_band(diff: Scalar, r: Scalar) -> bool {
    diff.absolute().below(r)
}

/// What a smooth minimum may return: where the difference of the
/// arguments lies inside the band a value of the fillet formula,
/// elsewhere the lesser argument.
pub open spec fn rmin_outcome<K: Arithmetic>(k: &K, a: Scalar, b: Scalar, r: Scalar, out: Scalar) -> bool {
    exists|d: Scalar| #[trigger]
        is_difference(k, a, b, d) && if within_band(d, r) {
            is_fillet_min(k, a, b, r, out)
        } else {
            out == a.lesser(b)
        }
}

/// What a smooth maximum may return: where the difference of the
/// arguments lies inside the band a value of the fillet formula,
/// elsewhere the greater argument.
pub open spec fn rmax_outcome<K: Arithmetic>(k: &K, a: Scalar, b: Scalar, r: Scalar, out: Scalar) -> bool {
    exists|d: Scalar| #[trigger]
        is_difference(k, a, b, d) && if within_band(d, r) {
            is_fillet_max(k, a, b, r, out)
        } else {
            out == a.greater(b)
        }
}

/// Where no difference of the arguments lies inside the band, the
/// smooth minimum is the lesser argument.
pub proof fn lemma_rmin_outside_band<K: Arithmetic>(k: &K, a: Scalar, b: Scalar, r: Scalar, out: Scalar)
    requires
        rmin_outcome(k, a, b, r, out),
        forall|d: Scalar| #[trigger] is_difference(k, a, b, d) ==> !within_band(d, r),
    ensures
        out == a.lesser(b),
{
}

/// Where no difference of the arguments lies inside the band, the
/// smooth maximum is the greater argument.
pub proof fn lemma_rmax_outside_band<K: Arithmetic>(k: &K, a: Scalar, b: Scalar, r: Scalar, out: Scalar)
    requires
        rmax_outcome(k, a, b, r, out),
        forall|d: Scalar| #[trigger] is_difference(k, a, b, d) ==> !within_band(d, r),
    ensures
        out == a.greater(b),
{
}

/// The band test does not tell a difference from its negation: it
/// gives the same answer whichever of the two values is taken from the
/// other.
pub proof fn lemma_band_is_symmetric(diff: Scalar, r: Scalar)
    ensures
        within_band(diff.negated(), r) == within_band(diff, r),
{
    diff.lemma_negated_absolute();
}

/// Where no difference of the arguments, in either order, lies inside
/// the band, the smooth minimum has the same value in both orders.
pub proof fn lemma_rmin_commutes_outside_band<K: Arithmetic>(
    k: &K,
    a: Scalar,
    b: Scalar,
    r: Scalar,
    ab: Scalar,
    ba: Scalar,
)
    requires
        rmin_outcome(k, a, b, r, ab),
        rmin_outcome(k, b, a, r, ba),
        forall|d: Scalar| #[trigger] is_difference(k, a, b, d) ==> !within_band(d, r),
        forall|d: Scalar| #[trigger] is_difference(k, b, a, d) ==> !within_band(d, r),
    ensures
        ab.same_value(ba),
{
    a.lemma_lesser_commutes(b);
}

/// Where no difference of the arguments, in either order, lies inside
/// the band, the smooth maximum has the same value in both orders.
pub proof fn lemma_rmax_commutes_outside_band<K: Arithmetic>(
    k: &K,
    a: Scalar,
    b: Scalar,
    r: Scalar,
    ab: Scalar,
    ba: Scalar,
)
    requires
        rmax_outcome(k, a, b, r, ab),
        rmax_outcome(k, b, a, r, ba),
        forall|d: Scalar| #[trigger] is_difference(k, a, b, d) ==> !within_band(d, r),
        forall|d: Scalar| #[trigger] is_difference(k, b, a, d) ==> !within_band(d, r),
    ensures
        ab.same_value(ba),
{
    a.lemma_greater_commutes(b);
}

/// Band test on a difference of two field values.
pub fn in_band(diff: Scalar, r: Scalar) -> (inside: bool)
    ensures
        inside == within_band(diff, r),
{
    diff.abs().lt(r)
}

/// Smooth minimum of `a` and `b` with blend radius `r`.
pub fn rmin<K: Arithmetic>(a: Scalar, b: Scalar, r: Scalar, k: &K) -> (out: Scalar)
    ensures
        rmin_outcome(k, a, b, r, out),
{
    let d = k.difference(a, b);
    if in_band(d, r) {
        let out = k.fillet_min(a, b, r);
        assert(is_difference(k, a, b, d));
        out
    } else {
        assert(is_difference(k, a, b, d));
        a.min(b)
    }
}

/// Smooth maximum of `a` and `b` with blend radius `r`.
pub fn rmax<K: Arithmetic>(a: Scalar, b: Scalar, r: Scalar, k: &K) -> (out: Scalar)
    ensures
        rmax_outcome(k, a, b, r, out),
{
    let d = k.difference(a, b);
    if in_band(d, r) {
        let out = k.fillet_max(a, b, r);
        assert(is_difference(k, a, b, d));
        out
    } else {
        assert(is_difference(k, a, b, d));
        a.max(b)
    }
}

/// The three boolean operations.
#[derive(Clone, Copy, Debug, PartialEq, Eq, Structural)]
pub enum MixKind {
    Union,
    Intersection,
    Subtraction,
}

/// What the blend of `kind` may return for the child values `a` and
/// `b`: a subtraction intersects with the complement of the second
/// child, whose field is the negated one.
pub open spec fn blend_outcome<K: Arithmetic>(
    k: &K,
    kind: MixKind,
    a: Scalar,
    b: Scalar,
    r: Scalar,
    out: Scalar,
) -> bool {
    match kind {
        MixKind::Union => rmin_outcome(k, a, b, r, out),
        MixKind::Intersection => rmax_outcome(k, a, b, r, out),
        MixKind::Subtraction => rmax_outcome(k, a, b.negated(), r, out),
    }
}

/// Whether the first child's surface dominates at a point where the
/// children have the values `a` and `b`.
pub open spec fn first_dominates(kind: MixKind, a: Scalar, b: Scalar) -> bool {
    match kind {
        MixKind::Union => a.below(b),
        MixKind::Intersection => b.below(a),
        MixKind::Subtraction => b.negated().below(a),
    }
}

/// What normal selection may return: a normal of the dominant child,
/// turned round where it is the subtracted one.
pub open spec fn normal_outcome<FA: FnOnce() -> Vector, FB: FnOnce() -> Vector>(
    kind: MixKind,
    a: Scalar,
    b: Scalar,
    get_an: FA,
    get_bn: FB,
    out: Vector,
) -> bool {
    if first_dominates(kind, a, b) {
        call_ensures(get_an, (), out)
    } else if kind is Subtraction {
        exists|n: Vector| #[trigger] call_ensures(get_bn, (), n) && out == n.negated()
    } else {
        call_ensures(get_bn, (), out)
    }
}

/// A blend strategy: a radius and the two rules that go with it.
pub trait Mixer: Sized + Copy {
    /// Which boolean operation the strategy performs.
    spec fn kind() -> MixKind;

    /// The blend radius it was made with.
    spec fn radius(&self) -> Scalar;

    fn new(r: Scalar) -> (m: Self)
        ensures
            m.radius() == r,
    ;

    /// Blended field value for the child values `a` and `b`.
    fn mixval<K: Arithmetic>(&self, a: Scalar, b: Scalar, k: &K) -> (out: Scalar)
        ensures
            blend_outcome(k, Self::kind(), a, b, self.radius(), out),
    ;

    /// Normal of the dominant child; the other supplier is not called.
    fn mixnormal<FA: FnOnce() -> Vector, FB: FnOnce() -> Vector>(
        &self,
        a: Scalar,
        b: Scalar,
        get_an: FA,
        get_bn: FB,
    ) -> (out: Vector)
        requires
            call_requires(get_an, ()),
            call_requires(get_bn, ()),
        ensures
            normal_outcome(Self::kind(), a, b, get_an, get_bn, out),
    ;

    fn r(&self) -> (r: Scalar)
        ensures
            r == self.radius(),
    ;

    /// The composite `node` as a solid among others.
    fn compose(node: Bool<Self>) -> (o: Object)
        ensures
            o@ == (Solid::Blend {
                kind: Self::kind(),
                r: node.strategy().radius(),
                a: Box::new(node.first()),
                b: Box::new(node.second()),
            }),
    ;
}

/// Smooth union.
#[derive(Clone, Copy, Debug)]
pub struct UnionMixer {
    pub r: Scalar,
}

impl Mixer for UnionMixer {
    open spec fn kind() -> MixKind {
        MixKind::Union
    }

    open spec fn radius(&self) -> Scalar {
        self.r
    }

    fn new(r: Scalar) -> (m: Self) {
        UnionMixer { r }
    }

    fn mixval<K: Arithmetic>(&self, a: Scalar, b: Scalar, k: &K) -> (out: Scalar) {
        rmin(a, b, self.r, k)
    }

    fn mixnormal<FA: FnOnce() -> Vector, FB: FnOnce() -> Vector>(
        &self,
        a: Scalar,
        b: Scalar,
        get_an: FA,
        get_bn: FB,
    ) -> (out: Vector) {
        if a.lt(b) {
            get_an()
        } else {
            get_bn()
        }
    }

    fn r(&self) -> (r: Scalar) {
        self.r
    }

    fn compose(node: Bool<Self>) -> (o: Object) {
        let o = Object::Union(node);
        proof {
            o.lemma_model();
        }
        o
    }
}

/// Smooth intersection.
#[derive(Clone, Copy, Debug)]
pub struct IntersectionMixer {
    pub r: Scalar,
}

impl Mixer for IntersectionMixer {
    open spec fn kind() -> MixKind {
        MixKind::Intersection
    }

    open spec fn radius(&self) -> Scalar {
        self.r
    }

    fn new(r: Scalar) -> (m: Self) {
        IntersectionMixer { r }
    }

    fn mixval<K: Arithmetic>(&self, a: Scalar, b: Scalar, k: &K) -> (out: Scalar) {
        rmax(a, b, self.r, k)
    }

    fn mixnormal<FA: FnOnce() -> Vector, FB: FnOnce() -> Vector>(
        &self,
        a: Scalar,
        b: Scalar,
        get_an: FA,
        get_bn: FB,
    ) -> (out: Vector) {
        if a.gt(b) {
            get_an()
        } else {
            get_bn()
        }
    }

    fn r(&self) -> (r: Scalar) {
        self.r
    }

    fn compose(node: Bool<Self>) -> (o: Object) {
        let o = Object::Intersection(node);
        proof {
            o.lemma_model();
        }
        o
    }
}

/// Smooth subtraction of the second solid from the first.
#[derive(Clone, Copy, Debug)]
pub struct SubtractionMixer {
    pub r: Scalar,
}

impl Mixer for SubtractionMixer {
    open spec fn kind() -> MixKind {
        MixKind::Subtraction
    }

    open spec fn radius(&self) -> Scalar {
        self.r
    }

    fn new(r: Scalar) -> (m: Self) {
        SubtractionMixer { r }
    }

    fn mixval<K: Arithmetic>(&self, a: Scalar, b: Scalar, k: &K) -> (out: Scalar) {
        rmax(a, b.neg(), self.r, k)
    }

    fn mixnormal<FA: FnOnce() -> Vector, FB: FnOnce() -> Vector>(
        &self,
        a: Scalar,
        b: Scalar,
        get_an: FA,
        get_bn: FB,
    ) -> (out: Vector) {
        if a.gt(b.neg()) {
            get_an()
        } else {
            get_bn().neg()
        }
    }

    fn r(&self) -> (r: Scalar) {
        self.r
    }

    fn compose(node: Bool<Self>) -> (o: Object) {
        let o = Object::Subtraction(node);
        proof {
            o.lemma_model();
        }
        o
    }
}

} // verus!
