//! Solids as values: transformed primitives at the leaves, boolean
//! composites above them.

use vstd::prelude::*;
use crate::scalar::Scalar;
use crate::geometry::{Point, Vector};
use crate::arithmetic::{is_difference, is_length, is_normalized, Arithmetic};
use crate::field::{estimate_normal, lemma_estimate_widens, ImplicitFunction};
use crate::solid::{child_values, sphere_normal, sphere_value, Solid};
use crate::transform::{pulled_back, pushed_forward, Step, Transform};
use crate::mixer::{
    blend_outcome, first_dominates, in_band, normal_outcome, within_band, IntersectionMixer, MixKind,
    Mixer, SubtractionMixer, UnionMixer,
};

verus! {

/// A base shape with a closed-form field, given in its own frame.
pub trait Primitive: Copy {
}

/// The sphere about the origin of its frame.
#[derive(Clone, Copy, Debug, PartialEq, Eq, Structural)]
pub struct SpherePrimitive {
    pub radius: Scalar,
}

impl SpherePrimitive {
    pub fn new(r: Scalar) -> (s: SpherePrimitive)
        ensures
            s.radius == r,
    {
        SpherePrimitive { radius: r }
    }
}

impl Primitive for SpherePrimitive {
}

/// A primitive together with the transform it has undergone.
#[derive(Debug)]
pub struct PrimitiveWrapper<T: Primitive> {
    primitive: T,
    transform: Transform,
}

/// A transformed sphere.
pub type Sphere = PrimitiveWrapper<SpherePrimitive>;

impl<T: Primitive> PrimitiveWrapper<T> {
    /// The wrapped primitive.
    pub closed spec fn shape(&self) -> T {
        self.primitive
    }

    /// The steps applied so far, earliest first.
    pub closed spec fn motion(&self) -> Seq<Step> {
        self.transform@
    }

    /// Wraps `primitive`, untransformed.
    pub fn wrap(primitive: T) -> (w: Self)
        ensures
            w.shape() == primitive,
            w.motion() == Seq::<Step>::empty(),
    {
        PrimitiveWrapper { primitive, transform: Transform::identity() }
    }

    pub fn primitive(&self) -> (p: &T)
        ensures
            *p == self.shape(),
    {
        &self.primitive
    }

    pub fn transform(&self) -> (t: &Transform)
        ensures
            t@ == self.motion(),
    {
        &self.transform
    }

    /// Composes `other` onto the outside of the stored transform.
    pub fn apply_transform(&mut self, other: &Transform)
        ensures
            final(self).shape() == old(self).shape(),
            final(self).motion() == old(self).motion() + other@,
    {
        self.transform = self.transform.concat(other);
    }

    /// Displaces the primitive by `t`.
    pub fn translate(&mut self, t: Vector)
        ensures
            final(self).shape() == old(self).shape(),
            final(self).motion() == old(self).motion().push(Step::Translate(t)),
    {
        let trans = Transform::translate(&t);
        self.apply_transform(&trans);
        assert(old(self).motion() + seq![Step::Translate(t)] =~= old(self).motion().push(Step::Translate(t)));
    }

    /// Rotates the primitive by the axis angles `r`.
    pub fn rotate(&mut self, r: Vector)
        ensures
            final(self).shape() == old(self).shape(),
            final(self).motion() == old(self).motion().push(Step::Rotate(r)),
    {
        let trans = Transform::rotate(&r);
        self.apply_transform(&trans);
        assert(old(self).motion() + seq![Step::Rotate(r)] =~= old(self).motion().push(Step::Rotate(r)));
    }

    /// Scales the primitive uniformly by `s`.
    pub fn scale(&mut self, s: Scalar)
        ensures
            final(self).shape() == old(self).shape(),
            final(self).motion() == old(self).motion().push(Step::Scale(s)),
    {
        let trans = Transform::scale(s);
        self.apply_transform(&trans);
        assert(old(self).motion() + seq![Step::Scale(s)] =~= old(self).motion().push(Step::Scale(s)));
    }
}

impl<T: Primitive> Clone for PrimitiveWrapper<T> {
    fn clone(&self) -> (w: Self)
        ensures
            w.shape() == self.shape(),
            w.motion() == self.motion(),
    {
        PrimitiveWrapper { primitive: self.primitive, transform: self.transform.clone() }
    }
}

impl PrimitiveWrapper<SpherePrimitive> {
    /// The sphere of radius `r` about the origin.
    pub fn new(r: Scalar) -> (s: Sphere)
        ensures
            s.shape().radius == r,
            s.motion() == Seq::<Step>::empty(),
    {
        PrimitiveWrapper::wrap(SpherePrimitive::new(r))
    }
}

/// A composite of two solids under a mixer.
#[derive(Debug)]
pub struct Bool<T> {
    a: Box<Object>,
    b: Box<Object>,
    mixer: T,
}

/// Any solid.
#[derive(Debug)]
pub enum Object {
    Sphere(Sphere),
    Union(Bool<UnionMixer>),
    Intersection(Bool<IntersectionMixer>),
    Subtraction(Bool<SubtractionMixer>),
}

impl Object {
    /// The solid that this value stands for.
    pub closed spec fn model(&self) -> Solid
        decreases self,
    {
        match self {
            Object::Sphere(s) => Solid::Leaf { radius: s.shape().radius, motion: s.motion() },
            Object::Union(n) => Solid::Blend {
                kind: MixKind::Union,
                r: n.mixer.r,
                a: Box::new(n.a.model()),
                b: Box::new(n.b.model()),
            },
            Object::Intersection(n) => Solid::Blend {
                kind: MixKind::Intersection,
                r: n.mixer.r,
                a: Box::new(n.a.model()),
                b: Box::new(n.b.model()),
            },
            Object::Subtraction(n) => Solid::Blend {
                kind: MixKind::Subtraction,
                r: n.mixer.r,
                a: Box::new(n.a.model()),
                b: Box::new(n.b.model()),
            },
        }
    }

    /// Unfolds `model` by one level.
    pub proof fn lemma_model(&self)
        ensures
            self@ == match self {
                Object::Sphere(s) => Solid::Leaf { radius: s.shape().radius, motion: s.motion() },
                Object::Union(n) => Solid::Blend {
                    kind: MixKind::Union,
                    r: n.strategy().r,
                    a: Box::new(n.first()),
                    b: Box::new(n.second()),
                },
                Object::Intersection(n) => Solid::Blend {
                    kind: MixKind::Intersection,
                    r: n.strategy().r,
                    a: Box::new(n.first()),
                    b: Box::new(n.second()),
                },
                Object::Subtraction(n) => Solid::Blend {
                    kind: MixKind::Subtraction,
                    r: n.strategy().r,
                    a: Box::new(n.first()),
                    b: Box::new(n.second()),
                },
            },
    {
    }
}

impl<T> Bool<T> {
    /// The first child's solid.
    pub closed spec fn first(&self) -> Solid {
        self.a.model()
    }

    /// The second child's solid.
    pub closed spec fn second(&self) -> Solid {
        self.b.model()
    }

    /// The mixer that joins the children.
    pub closed spec fn strategy(&self) -> T {
        self.mixer
    }
}

impl<T: Mixer> Bool<T> {
    /// The blend radius.
    pub open spec fn radius(&self) -> Scalar {
        self.strategy().radius()
    }

    /// A composite is the blend of its children under its mixer.
    pub proof fn lemma_view(&self)
        ensures
            self@ == (Solid::Blend {
                kind: T::kind(),
                r: self.radius(),
                a: Box::new(self.first()),
                b: Box::new(self.second()),
            }),
    {
    }

    /// The composite of `a` and `b` with blend radius `r`.
    pub fn new(a: Object, b: Object, r: Scalar) -> (n: Bool<T>)
        ensures
            n.first() == a@,
            n.second() == b@,
            n.radius() == r,
    {
        Bool { a: Box::new(a), b: Box::new(b), mixer: T::new(r) }
    }

    /// This composite as a solid among others.
    pub fn into_object(self) -> (o: Object)
        ensures
            o@ == self@,
    {
        T::compose(self)
    }

    pub fn a(&self) -> (o: &Object)
        ensures
            o@ == self.first(),
    {
        &*self.a
    }

    pub fn b(&self) -> (o: &Object)
        ensures
            o@ == self.second(),
    {
        &*self.b
    }

    pub fn mixer(&self) -> (m: &T)
        ensures
            *m == self.strategy(),
    {
        &self.mixer
    }
}

impl<T> Bool<T> {
    /// Hands `other` on to both children; the composite keeps no
    /// transform of its own.
    pub fn apply_transform(&mut self, other: &Transform)
        ensures
            final(self).first() == old(self).first().moved(other@),
            final(self).second() == old(self).second().moved(other@),
            final(self).strategy() == old(self).strategy(),
        decreases *old(self),
    {
        self.a.apply_transform(other);
        self.b.apply_transform(other);
    }

    /// Displaces both children by `t`.
    pub fn translate(&mut self, t: Vector)
        ensures
            final(self).first() == old(self).first().moved(seq![Step::Translate(t)]),
            final(self).second() == old(self).second().moved(seq![Step::Translate(t)]),
            final(self).strategy() == old(self).strategy(),
    {
        let trans = Transform::translate(&t);
        self.apply_transform(&trans);
    }

    /// Rotates both children by the axis angles `r`.
    pub fn rotate(&mut self, r: Vector)
        ensures
            final(self).first() == old(self).first().moved(seq![Step::Rotate(r)]),
            final(self).second() == old(self).second().moved(seq![Step::Rotate(r)]),
            final(self).strategy() == old(self).strategy(),
    {
        let trans = Transform::rotate(&r);
        self.apply_transform(&trans);
    }

    /// Scales both children uniformly by `s`.
    pub fn scale(&mut self, s: Scalar)
        ensures
            final(self).first() == old(self).first().moved(seq![Step::Scale(s)]),
            final(self).second() == old(self).second().moved(seq![Step::Scale(s)]),
            final(self).strategy() == old(self).strategy(),
    {
        let trans = Transform::scale(s);
        self.apply_transform(&trans);
    }
}

impl Object {
    /// Moves the solid by `other`: every leaf composes it onto the
    /// outside of its own transform.
    pub fn apply_transform(&mut self, other: &Transform)
        ensures
            final(self)@ == old(self)@.moved(other@),
        decreases *old(self),
    {
        match self {
            Object::Sphere(s) => {
                s.apply_transform(other);
            },
            Object::Union(n) => {
                n.apply_transform(other);
            },
            Object::Intersection(n) => {
                n.apply_transform(other);
            },
            Object::Subtraction(n) => {
                n.apply_transform(other);
            },
        }
    }
}

impl<T: Copy> Bool<T> {
    fn deep_copy(&self) -> (n: Bool<T>)
        ensures
            n.first() == self.first(),
            n.second() == self.second(),
            n.strategy() == self.strategy(),
        decreases self,
    {
        Bool { a: Box::new(self.a.deep_copy()), b: Box::new(self.b.deep_copy()), mixer: self.mixer }
    }
}

impl<T: Copy> Clone for Bool<T> {
    /// An independent copy of the whole subtree.
    fn clone(&self) -> (n: Bool<T>)
        ensures
            n.first() == self.first(),
            n.second() == self.second(),
            n.strategy() == self.strategy(),
    {
        self.deep_copy()
    }
}

impl Object {
    fn deep_copy(&self) -> (o: Object)
        ensures
            o@ == self@,
        decreases self,
    {
        match self {
            Object::Sphere(s) => Object::Sphere(s.clone()),
            Object::Union(n) => Object::Union(n.deep_copy()),
            Object::Intersection(n) => Object::Intersection(n.deep_copy()),
            Object::Subtraction(n) => Object::Subtraction(n.deep_copy()),
        }
    }

    /// Displaces the solid by `t`.
    pub fn translate(&mut self, t: Vector)
        ensures
            final(self)@ == old(self)@.moved(seq![Step::Translate(t)]),
    {
        let trans = Transform::translate(&t);
        self.apply_transform(&trans);
    }

    /// Rotates the solid by the axis angles `r`.
    pub fn rotate(&mut self, r: Vector)
        ensures
            final(self)@ == old(self)@.moved(seq![Step::Rotate(r)]),
    {
        let trans = Transform::rotate(&r);
        self.apply_transform(&trans);
    }

    /// Scales the solid uniformly by `s`.
    pub fn scale(&mut self, s: Scalar)
        ensures
            final(self)@ == old(self)@.moved(seq![Step::Scale(s)]),
    {
        let trans = Transform::scale(s);
        self.apply_transform(&trans);
    }
}

impl Clone for Object {
    /// An independent copy of the whole tree.
    fn clone(&self) -> (o: Object)
        ensures
            o@ == self@,
    {
        self.deep_copy()
    }
}

impl View for Object {
    type V = Solid;

    open spec fn view(&self) -> Solid {
        self.model()
    }
}

impl<T: Mixer> View for Bool<T> {
    type V = Solid;

    closed spec fn view(&self) -> Solid {
        Solid::Blend {
            kind: T::kind(),
            r: self.mixer.radius(),
            a: Box::new(self.a.model()),
            b: Box::new(self.b.model()),
        }
    }
}

/// Copying into a solid among others, whatever kind of solid is copied.
pub trait ObjectClone {
    /// The solid that the value stands for.
    spec fn solid(&self) -> Solid;

    /// An independent copy, as a solid among others.
    fn clone_box(&self) -> (o: Box<Object>)
        ensures
            o@ == self.solid(),
    ;
}

impl ObjectClone for Object {
    open spec fn solid(&self) -> Solid {
        self@
    }

    fn clone_box(&self) -> (o: Box<Object>) {
        Box::new(self.clone())
    }
}

impl ObjectClone for PrimitiveWrapper<SpherePrimitive> {
    open spec fn solid(&self) -> Solid {
        Solid::Leaf { radius: self.shape().radius, motion: self.motion() }
    }

    fn clone_box(&self) -> (o: Box<Object>) {
        let o = Object::Sphere(self.clone());
        proof {
            o.lemma_model();
        }
        Box::new(o)
    }
}

impl<T: Mixer> ObjectClone for Bool<T> {
    open spec fn solid(&self) -> Solid {
        self@
    }

    fn clone_box(&self) -> (o: Box<Object>) {
        proof {
            self.lemma_view();
        }
        let n = self.clone();
        proof {
            n.lemma_view();
        }
        Box::new(n.into_object())
    }
}

impl<K: Arithmetic> ImplicitFunction<K> for SpherePrimitive {
    open spec fn has_value(&self, k: &K, p: Point, out: Scalar) -> bool {
        sphere_value(k, self.radius, p, out)
    }

    open spec fn has_normal(&self, k: &K, p: Point, out: Vector) -> bool {
        sphere_normal(k, p, out)
    }

    fn value(&self, p: &Point, k: &K) -> (out: Scalar) {
        let len = k.length(p.to_vec());
        let out = k.difference(len, self.radius);
        assert(is_length(k, p.as_vector(), len));
        out
    }

    fn normal(&self, p: &Point, k: &K) -> (out: Vector) {
        k.normalize(p.to_vec())
    }
}

impl<K: Arithmetic, T: Primitive + ImplicitFunction<K>> ImplicitFunction<K> for PrimitiveWrapper<T> {
    open spec fn has_value(&self, k: &K, p: Point, out: Scalar) -> bool {
        exists|q: Point| #[trigger]
            pulled_back(k, self.motion(), p, q) && self.shape().has_value(k, q, out)
    }

    open spec fn has_normal(&self, k: &K, p: Point, out: Vector) -> bool {
        exists|q: Point, n: Vector, m: Vector|
            #![trigger pulled_back(k, self.motion(), p, q), pushed_forward(k, self.motion(), n, m)]
            pulled_back(k, self.motion(), p, q) && self.shape().has_normal(k, q, n) && pushed_forward(
                k,
                self.motion(),
                n,
                m,
            ) && is_normalized(k, m, out)
    }

    fn value(&self, p: &Point, k: &K) -> (out: Scalar) {
        let q = self.transform.t_point(*p, k);
        let out = self.primitive.value(&q, k);
        assert(pulled_back(k, self.motion(), *p, q) && self.shape().has_value(k, q, out));
        out
    }

    fn normal(&self, p: &Point, k: &K) -> (out: Vector) {
        let q = self.transform.t_point(*p, k);
        let n = self.primitive.normal(&q, k);
        let m = self.transform.i_vector(n, k);
        let out = k.normalize(m);
        assert(pulled_back(k, self.motion(), *p, q) && pushed_forward(k, self.motion(), n, m)
            && self.shape().has_normal(k, q, n) && is_normalized(k, m, out));
        out
    }
}

impl<T: Mixer, K: Arithmetic> ImplicitFunction<K> for Bool<T> {
    open spec fn has_value(&self, k: &K, p: Point, out: Scalar) -> bool {
        self@.has_value(k, p, out)
    }

    open spec fn has_normal(&self, k: &K, p: Point, out: Vector) -> bool {
        self@.has_normal(k, p, out)
    }

    fn value(&self, p: &Point, k: &K) -> (out: Scalar)
        decreases self,
    {
        let va = self.a.value(p, k);
        let vb = self.b.value(p, k);
        let out = self.mixer.mixval(va, vb, k);
        proof {
            self.lemma_view();
            let a = self.first();
            let b = self.second();
            assert(a.has_value(k, *p, va) && b.has_value(k, *p, vb) && blend_outcome(
                k,
                T::kind(),
                va,
                vb,
                self.radius(),
                out,
            ));
            assert(child_values(va, vb));
        }
        out
    }

    fn normal(&self, p: &Point, k: &K) -> (out: Vector)
        decreases self,
    {
        let va = self.a.value(p, k);
        let vb = self.b.value(p, k);
        let d = k.difference(va, vb);
        proof {
            self.lemma_view();
        }
        let ghost a = self.first();
        let ghost b = self.second();
        assert(a.has_value(k, *p, va) && b.has_value(k, *p, vb) && is_difference(k, va, vb, d));
        if in_band(d, self.mixer.r()) {
            let sample = |q: &Point| -> (v: Scalar)
                ensures
                    self@.has_value(k, *q, v),
                { self.value(q, k) };
            let out = estimate_normal(&sample, p, k);
            proof {
                lemma_estimate_widens(
                    |q: Point, v: Scalar| call_ensures(sample, (&q,), v),
                    |q: Point, v: Scalar| self@.has_value(k, q, v),
                    k,
                    *p,
                    out,
                );
            }
            out
        } else {
            let get_an = || -> (n: Vector)
                ensures
                    self.a.model().has_normal(k, *p, n),
                { self.a.normal(p, k) };
            let get_bn = || -> (n: Vector)
                ensures
                    self.b.model().has_normal(k, *p, n),
                { self.b.normal(p, k) };
            let out = self.mixer.mixnormal(va, vb, get_an, get_bn);
            proof {
                assert(normal_outcome(T::kind(), va, vb, get_an, get_bn, out));
                assert(!within_band(d, self.radius()));
                if first_dominates(T::kind(), va, vb) {
                    assert(a.has_normal(k, *p, out));
                } else if T::kind() is Subtraction {
                    let n = choose|n: Vector| #[trigger]
                        call_ensures(get_bn, (), n) && out == n.negated();
                    n.lemma_negated_twice();
                    assert(b.has_normal(k, *p, out.negated()));
                } else {
                    assert(b.has_normal(k, *p, out));
                }
            }
            out
        }
    }
}

impl<K: Arithmetic> ImplicitFunction<K> for Object {
    open spec fn has_value(&self, k: &K, p: Point, out: Scalar) -> bool {
        self@.has_value(k, p, out)
    }

    open spec fn has_normal(&self, k: &K, p: Point, out: Vector) -> bool {
        self@.has_normal(k, p, out)
    }

    fn value(&self, p: &Point, k: &K) -> (out: Scalar)
        decreases self,
    {
        match self {
            Object::Sphere(s) => s.value(p, k),
            Object::Union(n) => n.value(p, k),
            Object::Intersection(n) => n.value(p, k),
            Object::Subtraction(n) => n.value(p, k),
        }
    }

    fn normal(&self, p: &Point, k: &K) -> (out: Vector)
        decreases self,
    {
        match self {
            Object::Sphere(s) => s.normal(p, k),
            Object::Union(n) => n.normal(p, k),
            Object::Intersection(n) => n.normal(p, k),
            Object::Subtraction(n) => n.normal(p, k),
        }
    }
}

} // verus!
