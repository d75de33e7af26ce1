//! The mathematical content of solids, and what their fields evaluate
//! to.

use vstd::prelude::*;
use crate::scalar::Scalar;
use crate::geometry::{Point, Vector};
use crate::transform::{
    lemma_pulled_back_joins, lemma_pulled_back_single, lemma_pulled_back_splits, pulled_back,
    pushed_forward, Step,
};
use crate::arithmetic::{is_difference, is_length, is_normalized, is_pull_back, Arithmetic};
use crate::field::is_estimate;
use crate::mixer::{blend_outcome, first_dominates, within_band, MixKind};

verus! {

/// Whether `out` is a value that the sphere of `radius` about the
/// origin may have at `q`: the distance from the origin less the
/// radius.
pub open spec fn sphere_value<K: Arithmetic>(k: &K, radius: Scalar, q: Point, out: Scalar) -> bool {
    exists|len: Scalar| #[trigger]
        is_length(k, q.as_vector(), len) && is_difference(k, len, radius, out)
}

/// Whether `out` is a normal that a sphere about the origin may have at
/// `q`: the radial direction.
pub open spec fn sphere_normal<K: Arithmetic>(k: &K, q: Point, out: Vector) -> bool {
    is_normalized(k, q.as_vector(), out)
}

/// Whether `out` is a value that a sphere which has undergone `motion`
/// may have at `p`.
pub open spec fn leaf_value<K: Arithmetic>(k: &K, radius: Scalar, motion: Seq<Step>, p: Point, out: Scalar) -> bool {
    exists|q: Point| #[trigger] pulled_back(k, motion, p, q) && sphere_value(k, radius, q, out)
}

/// Whether `out` is a normal that a sphere which has undergone `motion`
/// may have at `p`: its own normal at the pulled-back point, carried
/// through the motion and brought back to unit length.
pub open spec fn leaf_normal<K: Arithmetic>(k: &K, motion: Seq<Step>, p: Point, out: Vector) -> bool {
    exists|q: Point, n: Vector, m: Vector|
        #![trigger pulled_back(k, motion, p, q), pushed_forward(k, motion, n, m)]
        pulled_back(k, motion, p, q) && sphere_normal(k, q, n) && pushed_forward(k, motion, n, m)
            && is_normalized(k, m, out)
}

/// The mathematical content of a solid.
pub enum Solid {
    /// A sphere of some radius that has undergone some steps.
    Leaf { radius: Scalar, motion: Seq<Step> },
    /// Two solids under a blend of some kind and radius.
    Blend { kind: MixKind, r: Scalar, a: Box<Solid>, b: Box<Solid> },
}

/// Names a pair of child values, for the solver to pick them by.
pub open spec fn child_values(va: Scalar, vb: Scalar) -> bool {
    true
}

impl Solid {
    /// Number of blends on the longest way from the top to a leaf.
    pub open spec fn depth(self) -> nat
        decreases self,
    {
        match self {
            Solid::Leaf { .. } => 0,
            Solid::Blend { a, b, .. } => if a.depth() >= b.depth() {
                1 + a.depth()
            } else {
                1 + b.depth()
            },
        }
    }

    /// Whether `out` is a value that the solid's field may take at `p`:
    /// a leaf has the value of its sphere at the pulled-back point, a
    /// blend the blended values of its children.
    pub open spec fn has_value<K: Arithmetic>(self, k: &K, p: Point, out: Scalar) -> bool
        decreases self,
    {
        match self {
            Solid::Leaf { radius, motion } => leaf_value(k, radius, motion, p, out),
            Solid::Blend { kind, r, a, b } => exists|va: Scalar, vb: Scalar|
                #![trigger child_values(va, vb)]
                child_values(va, vb) &&                 a.has_value(k, p, va) && b.has_value(k, p, vb) && blend_outcome(
                    k,
                    kind,
                    va,
                    vb,
                    r,
                    out,
                ),
        }
    }

    /// Whether `out` is a normal that the solid's field may have at `p`.
    /// Where the children's values differ by less than the blend
    /// radius, a blend estimates its normal from its own field;
    /// elsewhere it has the normal of the dominant child, turned round
    /// where that is the subtracted one.
    pub open spec fn has_normal<K: Arithmetic>(self, k: &K, p: Point, out: Vector) -> bool
        decreases self,
    {
        match self {
            Solid::Leaf { radius, motion } => leaf_normal(k, motion, p, out),
            Solid::Blend { kind, r, a, b } => exists|va: Scalar, vb: Scalar, d: Scalar|
                #![trigger is_difference(k, va, vb, d)]
                a.has_value(k, p, va) && b.has_value(k, p, vb) && is_difference(k, va, vb, d) && if within_band(
                    d,
                    r,
                ) {
                    is_estimate(|q: Point, v: Scalar| self.has_value(k, q, v), k, p, out)
                } else if first_dominates(kind, va, vb) {
                    a.has_normal(k, p, out)
                } else if kind is Subtraction {
                    b.has_normal(k, p, out.negated())
                } else {
                    b.has_normal(k, p, out)
                },
        }
    }

    /// The solid after every leaf has undergone the further steps `t`.
    pub open spec fn moved(self, t: Seq<Step>) -> Solid
        decreases self,
    {
        match self {
            Solid::Leaf { radius, motion } => Solid::Leaf { radius, motion: motion + t },
            Solid::Blend { kind, r, a, b } => Solid::Blend {
                kind,
                r,
                a: Box::new(a.moved(t)),
                b: Box::new(b.moved(t)),
            },
        }
    }
}

/// A moved solid has, at a point, every value that the solid itself has
/// at a point from which the motion leads there.
pub proof fn lemma_moved_value<K: Arithmetic>(k: &K, s: Solid, t: Seq<Step>, p: Point, mid: Point, out: Scalar)
    requires
        pulled_back(k, t, p, mid),
        s.has_value(k, mid, out),
    ensures
        s.moved(t).has_value(k, p, out),
    decreases s,
{
    match s {
        Solid::Leaf { radius, motion } => {
            let q = choose|q: Point| #[trigger]
                pulled_back(k, motion, mid, q) && sphere_value(k, radius, q, out);
            lemma_pulled_back_joins(k, motion, t, p, mid, q);
            assert(pulled_back(k, motion + t, p, q) && sphere_value(k, radius, q, out));
        },
        Solid::Blend { kind, r, a, b } => {
            let (va, vb) = choose|va: Scalar, vb: Scalar|
                #![trigger child_values(va, vb)]
                child_values(va, vb) && a.has_value(k, mid, va) && b.has_value(k, mid, vb)
                    && blend_outcome(k, kind, va, vb, r, out);
            lemma_moved_value(k, *a, t, p, mid, va);
            lemma_moved_value(k, *b, t, p, mid, vb);
            assert(child_values(va, vb));
        },
    }
}

/// A solid that has undergone one further step has at `p` every value
/// that it had, before the step, at the point which the step carries to
/// `p`: for a translation, the point displaced back by the vector.
pub proof fn lemma_step_value<K: Arithmetic>(k: &K, s: Solid, step: Step, p: Point, mid: Point, out: Scalar)
    requires
        is_pull_back(k, step, p, mid),
        s.has_value(k, mid, out),
    ensures
        s.moved(seq![step]).has_value(k, p, out),
{
    lemma_pulled_back_single(k, step, p, mid);
    lemma_moved_value(k, s, seq![step], p, mid, out);
}

/// The values of a moved sphere at `p` are exactly the values of the
/// sphere at the points from which the motion leads to `p`.
pub proof fn lemma_moved_sphere_value<K: Arithmetic>(
    k: &K,
    radius: Scalar,
    motion: Seq<Step>,
    t: Seq<Step>,
    p: Point,
    out: Scalar,
)
    ensures
        (Solid::Leaf { radius, motion }).moved(t).has_value(k, p, out) <==> exists|mid: Point| #[trigger]
            pulled_back(k, t, p, mid) && (Solid::Leaf { radius, motion }).has_value(k, mid, out),
{
    let s = Solid::Leaf { radius, motion };
    if s.moved(t).has_value(k, p, out) {
        let q = choose|q: Point| #[trigger]
            pulled_back(k, motion + t, p, q) && sphere_value(k, radius, q, out);
        let mid = lemma_pulled_back_splits(k, motion, t, p, q);
        assert(pulled_back(k, motion, mid, q) && sphere_value(k, radius, q, out));
        assert(pulled_back(k, t, p, mid) && s.has_value(k, mid, out));
    }
    if exists|mid: Point| #[trigger] pulled_back(k, t, p, mid) && s.has_value(k, mid, out) {
        let mid = choose|mid: Point| #[trigger] pulled_back(k, t, p, mid) && s.has_value(k, mid, out);
        lemma_moved_value(k, s, t, p, mid, out);
    }
}

/// The normal of an untransformed sphere is the radial direction,
/// brought to unit length once more by the wrapper.
pub proof fn lemma_plain_sphere_normal<K: Arithmetic>(k: &K, radius: Scalar, p: Point, out: Vector)
    ensures
        (Solid::Leaf { radius, motion: Seq::<Step>::empty() }).has_normal(k, p, out) <==> exists|n: Vector|
            #![trigger is_normalized(k, n, out)]
            is_normalized(k, p.as_vector(), n) && is_normalized(k, n, out),
{
    let none = Seq::<Step>::empty();
    let s = Solid::Leaf { radius, motion: none };
    if s.has_normal(k, p, out) {
        let (q, n, m) = choose|q: Point, n: Vector, m: Vector|
            #![trigger pulled_back(k, none, p, q), pushed_forward(k, none, n, m)]
            pulled_back(k, none, p, q) && sphere_normal(k, q, n) && pushed_forward(k, none, n, m)
                && is_normalized(k, m, out);
        assert(is_normalized(k, p.as_vector(), n) && is_normalized(k, n, out));
    }
    if exists|n: Vector|
        #![trigger is_normalized(k, n, out)]
        is_normalized(k, p.as_vector(), n) && is_normalized(k, n, out) {
        let n = choose|n: Vector|
            #![trigger is_normalized(k, n, out)]
            is_normalized(k, p.as_vector(), n) && is_normalized(k, n, out);
        assert(pulled_back(k, none, p, p) && sphere_normal(k, p, n) && pushed_forward(k, none, n, n)
            && is_normalized(k, n, out));
    }
}

/// Moving by `t` and then by `u` is moving once by `t` followed by `u`.
pub proof fn lemma_moved_accumulates(s: Solid, t: Seq<Step>, u: Seq<Step>)
    ensures
        s.moved(t).moved(u) == s.moved(t + u),
    decreases s,
{
    match s {
        Solid::Leaf { radius, motion } => {
            assert((motion + t) + u =~= motion + (t + u));
        },
        Solid::Blend { kind, r, a, b } => {
            lemma_moved_accumulates(*a, t, u);
            lemma_moved_accumulates(*b, t, u);
        },
    }
}

/// Moving by the identity changes nothing.
pub proof fn lemma_moved_identity(s: Solid)
    ensures
        s.moved(Seq::<Step>::empty()) == s,
    decreases s,
{
    match s {
        Solid::Leaf { radius, motion } => {
            assert(motion + Seq::<Step>::empty() =~= motion);
        },
        Solid::Blend { kind, r, a, b } => {
            lemma_moved_identity(*a);
            lemma_moved_identity(*b);
        },
    }
}

} // verus!
